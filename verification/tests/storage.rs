use bit_coin::chain::block::BLOCK_REWARD;
use bit_coin::storage::utxo_set::{all_utxos_of, balance_of, utxos_for_script_of};
use bit_coin::storage::{BlockchainDB, OutPoint, Storage, Utxo, UtxoSet};
use bit_coin::{Block, BlockHeader, ErrorKind, Hash256, Miner, Target, Transaction, TxOutput};

#[test]
fn test_store_and_get_block() {
    let mut db = BlockchainDB::memory().unwrap();
    let block = Block::genesis();

    db.store_block(&block).unwrap();

    let hash = block.hash();
    let retrieved = db.get_block(&hash).unwrap().unwrap();

    assert_eq!(block, retrieved);
}

#[test]
fn test_height_index() {
    let mut db = BlockchainDB::memory().unwrap();
    let block = Block::genesis();
    let hash = block.hash();

    db.store_block(&block).unwrap();

    db.store_height(0, &hash).unwrap();

    let retrieved_hash = db.get_hash_by_height(0).unwrap().unwrap();
    assert_eq!(hash, retrieved_hash);

    let retrieved_block = db.get_block_by_height(0).unwrap().unwrap();
    assert_eq!(block.hash(), retrieved_block.hash());
}

#[test]
fn test_tip_management() {
    let mut db = BlockchainDB::memory().unwrap();
    let block = Block::genesis();
    let hash = block.hash();

    db.store_tip(&hash).unwrap();

    let tip = db.get_tip().unwrap().unwrap();
    assert_eq!(hash, tip);
}

#[test]
fn test_chain_height() {
    let mut db = BlockchainDB::memory().unwrap();

    assert_eq!(db.get_chain_height().unwrap(), 0);

    db.store_chain_height(10).unwrap();
    assert_eq!(db.get_chain_height().unwrap(), 10);
}

#[test]
fn test_has_block() {
    let mut db = BlockchainDB::memory().unwrap();
    let block = Block::genesis();
    let hash = block.hash();

    assert!(!db.has_block(&hash).unwrap());

    db.store_block(&block).unwrap();

    assert!(db.has_block(&hash).unwrap());
}

fn block_number(n: u8, prev: Hash256) -> Block {
    let txs = vec![
        Transaction::coinbase(vec![n], TxOutput::new(50, vec![n]), n as u32),
        Transaction::coinbase(vec![n, n], TxOutput::new(51, vec![]), n as u32),
    ];
    let root = Block::calculate_merkle_root(&txs);
    Block::new(BlockHeader::new(1, prev, root, 1000 + n as u32, 0x207fffff, n as u32), txs)
}

#[test]
fn stored_block_is_found_by_hash_height_and_tip() {
    let mut db = BlockchainDB::memory().unwrap();
    assert_eq!(db.get_tip(), Ok(None));
    assert_eq!(db.get_hash_by_height(0), Ok(None));
    assert_eq!(db.get_block_by_height(0), Ok(None));
    assert_eq!(db.get_block(&Hash256::zero()), Ok(None));
    let first = Block::genesis();
    let second = block_number(1, first.hash());
    let third = block_number(2, second.hash());
    for (height, block) in [&first, &second, &third].into_iter().enumerate() {
        db.store_block(block).unwrap();
        db.store_height(height as u32, &block.hash()).unwrap();
        db.store_tip(&block.hash()).unwrap();
        db.store_chain_height(height as u32 + 1).unwrap();
        assert_eq!(db.get_block(&block.hash()), Ok(Some(block.clone())));
        assert_eq!(db.get_block_by_height(height as u32), Ok(Some(block.clone())));
        assert_eq!(db.get_tip(), Ok(Some(block.hash())));
        assert_eq!(db.get_chain_height(), Ok(height as u32 + 1));
    }
    assert_eq!(db.get_block_by_height(0), Ok(Some(first.clone())));
    assert_eq!(db.get_block_by_height(1), Ok(Some(second)));
    assert_eq!(db.get_block_by_height(3), Ok(None));
    assert_eq!(db.get_hash_by_height(256), Ok(None));
    assert_eq!(db.has_block(&first.hash()), Ok(true));
    assert_eq!(db.has_block(&Hash256::new([1; 32])), Ok(false));
    assert_eq!(db.flush(), Ok(()));
}

#[test]
fn height_index_without_block_body() {
    let mut db = BlockchainDB::memory().unwrap();
    db.store_height(5, &Hash256::new([9; 32])).unwrap();
    assert_eq!(db.get_hash_by_height(5), Ok(Some(Hash256::new([9; 32]))));
    assert_eq!(db.get_block_by_height(5), Ok(None));
    db.store_height(5, &Hash256::new([8; 32])).unwrap();
    assert_eq!(db.get_hash_by_height(5), Ok(Some(Hash256::new([8; 32]))));
}

fn discard(path: &str) {
    let db = sled::Config::new().path(path).temporary(true).open();
    drop(db);
}

fn scratch_path(name: &str) -> String {
    let nanos = std::time::SystemTime::now()
        .duration_since(std::time::UNIX_EPOCH)
        .unwrap()
        .as_nanos();
    format!("/tmp/bit_coin_test_{}_{}", name, nanos)
}

#[test]
fn persist_and_rehydrate() {
    let path = scratch_path("rehydrate");
    let genesis = Block::genesis();
    {
        let mut db = BlockchainDB::new(&path).unwrap();
        db.store_block(&genesis).unwrap();
        db.store_height(0, &genesis.hash()).unwrap();
        db.store_tip(&genesis.hash()).unwrap();
        db.store_chain_height(1).unwrap();
        db.flush().unwrap();
    }
    let db = BlockchainDB::new(&path).unwrap();
    assert_eq!(db.get_block_by_height(0), Ok(Some(genesis.clone())));
    assert_eq!(db.get_tip(), Ok(Some(genesis.hash())));
    assert_eq!(db.get_chain_height(), Ok(1));
    drop(db);
    discard(&path);
}

#[test]
fn storage_opens_both_stores() {
    let mut memory = Storage::memory().unwrap();
    assert_eq!(memory.utxo_set.count(), Ok(0));
    assert_eq!(memory.blockchain.get_chain_height(), Ok(0));
    memory.blockchain.store_chain_height(3).unwrap();
    assert_eq!(memory.blockchain.get_chain_height(), Ok(3));
    let path = scratch_path("storage");
    {
        let mut storage = Storage::new(&path).unwrap();
        storage.blockchain.store_chain_height(2).unwrap();
        storage.blockchain.flush().unwrap();
        let outpoint = OutPoint::new(Hash256::new([1; 32]), 0);
        storage.utxo_set.add_utxo(&outpoint, &Utxo::new(TxOutput::new(5, vec![]), 0, true)).unwrap();
    }
    let storage = Storage::new(&path).unwrap();
    assert_eq!(storage.blockchain.get_chain_height(), Ok(2));
    assert_eq!(storage.utxo_set.count(), Ok(1));
    let blocks = BlockchainDB::new(&format!("{}/blocks", path));
    assert!(matches!(blocks, Err(ErrorKind::StorageError)));
    assert!(matches!(UtxoSet::new(&format!("{}/utxo", path)), Err(ErrorKind::StorageError)));
    assert!(matches!(Storage::new(&path), Err(ErrorKind::StorageError)));
    assert_eq!(ErrorKind::StorageError.message(), "Storage error");
    drop(storage);
    discard(&format!("{}/blocks", path));
    discard(&format!("{}/utxo", path));
}

#[test]
fn test_outpoint_serialization() {
    let outpoint = OutPoint::new(Hash256::new([1; 32]), 42);

    let bytes = outpoint.to_bytes();
    assert_eq!(bytes.len(), 36);

    let decoded = OutPoint::from_bytes(&bytes).unwrap();
    assert_eq!(outpoint, decoded);
}

#[test]
fn test_utxo_serialization() {
    let output = TxOutput::new(1000, vec![1, 2, 3, 4]);
    let utxo = Utxo::new(output.clone(), 10, false);

    let bytes = utxo.to_bytes();
    let decoded = Utxo::from_bytes(&bytes).unwrap();

    assert_eq!(utxo.output.value, decoded.output.value);
    assert_eq!(utxo.output.script_pubkey, decoded.output.script_pubkey);
    assert_eq!(utxo.height, decoded.height);
    assert_eq!(utxo.is_coinbase, decoded.is_coinbase);
}

#[test]
fn outpoint_and_utxo_exact_bytes() {
    let outpoint = OutPoint::new(Hash256::new([7; 32]), 0x01020304);
    let mut expected = vec![7u8; 32];
    expected.extend_from_slice(&[4, 3, 2, 1]);
    assert_eq!(outpoint.to_bytes(), expected);
    assert_eq!(OutPoint::from_bytes(&expected[..35]), Err(ErrorKind::MalformedInput));
    expected.push(0);
    assert_eq!(OutPoint::from_bytes(&expected), Err(ErrorKind::MalformedInput));
    assert_eq!(outpoint.clone(), outpoint);

    let utxo = Utxo::new(TxOutput::new(1000, vec![9, 8]), 0x0a0b0c0d, true);
    let bytes = utxo.to_bytes();
    assert_eq!(bytes, vec![0xe8, 3, 0, 0, 0, 0, 0, 0, 2, 9, 8, 0x0d, 0x0c, 0x0b, 0x0a, 1]);
    let back = Utxo::from_bytes(&bytes).unwrap();
    assert_eq!(back.output, utxo.output);
    assert_eq!(back.height, 0x0a0b0c0d);
    assert!(back.is_coinbase);
    let mut flagged = bytes.clone();
    flagged[15] = 0x80;
    assert!(Utxo::from_bytes(&flagged).unwrap().is_coinbase);
    flagged[15] = 0;
    assert!(!Utxo::from_bytes(&flagged).unwrap().is_coinbase);
    assert!(Utxo::from_bytes(&bytes[..12]).is_err());
    assert!(Utxo::from_bytes(&[0u8; 13]).is_err());
    let smallest = Utxo::new(TxOutput::new(0, vec![]), 0, false).to_bytes();
    assert_eq!(smallest.len(), 14);
    assert!(Utxo::from_bytes(&smallest).is_ok());
    let mut cut_script = bytes.clone();
    cut_script[8] = 3;
    assert!(Utxo::from_bytes(&cut_script).is_err());
    let cloned = utxo.clone();
    assert_eq!(cloned.output, utxo.output);
}

#[test]
fn test_add_and_get_utxo() {
    let mut utxo_set = UtxoSet::memory().unwrap();

    let outpoint = OutPoint::new(Hash256::new([1; 32]), 0);
    let output = TxOutput::new(5000, vec![1, 2, 3]);
    let utxo = Utxo::new(output, 1, false);

    utxo_set.add_utxo(&outpoint, &utxo).unwrap();

    let retrieved = utxo_set.get_utxo(&outpoint).unwrap().unwrap();
    assert_eq!(utxo.output.value, retrieved.output.value);
}

#[test]
fn test_remove_utxo() {
    let mut utxo_set = UtxoSet::memory().unwrap();

    let outpoint = OutPoint::new(Hash256::new([1; 32]), 0);
    let output = TxOutput::new(5000, vec![1, 2, 3]);
    let utxo = Utxo::new(output, 1, false);

    utxo_set.add_utxo(&outpoint, &utxo).unwrap();
    assert!(utxo_set.has_utxo(&outpoint).unwrap());

    let existed = utxo_set.remove_utxo(&outpoint).unwrap();
    assert!(existed);
    assert!(!utxo_set.has_utxo(&outpoint).unwrap());
}

#[test]
fn utxo_set_test_get_balance() {
    let mut utxo_set = UtxoSet::memory().unwrap();

    let script_pubkey = vec![1, 2, 3, 4];

    let outpoint1 = OutPoint::new(Hash256::new([1; 32]), 0);
    let utxo1 = Utxo::new(TxOutput::new(1000, script_pubkey.clone()), 1, false);
    utxo_set.add_utxo(&outpoint1, &utxo1).unwrap();

    let outpoint2 = OutPoint::new(Hash256::new([2; 32]), 0);
    let utxo2 = Utxo::new(TxOutput::new(2000, script_pubkey.clone()), 2, false);
    utxo_set.add_utxo(&outpoint2, &utxo2).unwrap();

    let balance = utxo_set.get_balance(&script_pubkey).unwrap();
    assert_eq!(balance, 3000);
}

#[test]
fn test_count() {
    let mut utxo_set = UtxoSet::memory().unwrap();

    assert_eq!(utxo_set.count().unwrap(), 0);

    let outpoint1 = OutPoint::new(Hash256::new([1; 32]), 0);
    let utxo1 = Utxo::new(TxOutput::new(1000, vec![1, 2, 3]), 1, false);
    utxo_set.add_utxo(&outpoint1, &utxo1).unwrap();

    assert_eq!(utxo_set.count().unwrap(), 1);

    let outpoint2 = OutPoint::new(Hash256::new([2; 32]), 0);
    let utxo2 = Utxo::new(TxOutput::new(2000, vec![4, 5, 6]), 2, false);
    utxo_set.add_utxo(&outpoint2, &utxo2).unwrap();

    assert_eq!(utxo_set.count().unwrap(), 2);
}

fn outpoint_number(n: u8, vout: u32) -> OutPoint {
    OutPoint::new(Hash256::new([n; 32]), vout)
}

#[test]
fn utxo_set_scans_in_key_order() {
    let mut set = UtxoSet::memory().unwrap();
    let mine = vec![0xaa, 0xbb];
    let theirs = vec![0xcc];
    set.add_utxo(&outpoint_number(3, 0), &Utxo::new(TxOutput::new(30, mine.clone()), 3, false)).unwrap();
    set.add_utxo(&outpoint_number(1, 1), &Utxo::new(TxOutput::new(11, mine.clone()), 1, true)).unwrap();
    set.add_utxo(&outpoint_number(2, 0), &Utxo::new(TxOutput::new(20, theirs.clone()), 2, false)).unwrap();
    set.add_utxo(&outpoint_number(1, 0), &Utxo::new(TxOutput::new(10, mine.clone()), 1, false)).unwrap();
    assert_eq!(set.count(), Ok(4));
    assert_eq!(set.get_balance(&mine), Ok(51));
    assert_eq!(set.get_balance(&theirs), Ok(20));
    assert_eq!(set.get_balance(&[]), Ok(0));
    let found = set.get_utxos_for_script(&mine).unwrap();
    let keys: Vec<OutPoint> = found.iter().map(|pair| pair.0.clone()).collect();
    assert_eq!(keys, vec![outpoint_number(1, 0), outpoint_number(1, 1), outpoint_number(3, 0)]);
    let values: Vec<u64> = found.iter().map(|pair| pair.1.output.value).collect();
    assert_eq!(values, vec![10, 11, 30]);
    assert!(found[1].1.is_coinbase);
    let all = set.get_all_utxos().unwrap();
    let keys: Vec<OutPoint> = all.iter().map(|pair| pair.0.clone()).collect();
    assert_eq!(
        keys,
        vec![outpoint_number(1, 0), outpoint_number(1, 1), outpoint_number(2, 0), outpoint_number(3, 0)]
    );
    set.add_utxo(&outpoint_number(1, 0), &Utxo::new(TxOutput::new(15, mine.clone()), 9, false)).unwrap();
    assert_eq!(set.count(), Ok(4));
    assert_eq!(set.get_balance(&mine), Ok(56));
    assert_eq!(set.get_utxo(&outpoint_number(1, 0)).unwrap().unwrap().height, 9);
    assert_eq!(set.remove_utxo(&outpoint_number(1, 0)), Ok(true));
    assert_eq!(set.remove_utxo(&outpoint_number(1, 0)), Ok(false));
    assert_eq!(set.has_utxo(&outpoint_number(1, 0)), Ok(false));
    assert!(set.get_utxo(&outpoint_number(1, 0)).unwrap().is_none());
    assert_eq!(set.get_balance(&mine), Ok(41));
    assert_eq!(set.count(), Ok(3));
}

#[test]
fn utxo_balance_saturates() {
    let mut set = UtxoSet::memory().unwrap();
    let script = vec![1];
    set.add_utxo(&outpoint_number(1, 0), &Utxo::new(TxOutput::new(u64::MAX, script.clone()), 0, false)).unwrap();
    set.add_utxo(&outpoint_number(2, 0), &Utxo::new(TxOutput::new(5, script.clone()), 0, false)).unwrap();
    assert_eq!(set.get_balance(&script), Ok(u64::MAX));
}

#[test]
fn block_store_reports_corrupt_values() {
    let path = scratch_path("corrupt");
    let hash = Hash256::new([4; 32]);
    {
        let db = sled::open(&path).unwrap();
        let mut key = vec![b'b'];
        key.extend_from_slice(hash.as_bytes());
        db.insert(key, vec![1u8, 2, 3]).unwrap();
        db.insert(b"tip", vec![1u8, 2, 3]).unwrap();
        db.insert(b"height", vec![1u8, 2, 3]).unwrap();
        db.insert(vec![b'h', 0, 0, 0, 0], vec![0u8; 31]).unwrap();
        db.flush().unwrap();
    }
    let db = BlockchainDB::new(&path).unwrap();
    assert_eq!(db.get_block(&hash), Err(ErrorKind::MalformedInput));
    assert_eq!(db.get_tip(), Err(ErrorKind::MalformedInput));
    assert_eq!(db.get_chain_height(), Err(ErrorKind::MalformedInput));
    assert_eq!(db.get_hash_by_height(0), Err(ErrorKind::MalformedInput));
    assert_eq!(db.get_block_by_height(0), Err(ErrorKind::MalformedInput));
    assert_eq!(db.has_block(&hash), Ok(true));
    drop(db);
    discard(&path);
}

#[test]
fn utxo_set_reports_corrupt_entries() {
    let path = scratch_path("corrupt_utxo");
    let script = vec![0xaa];
    {
        let db = sled::open(&path).unwrap();
        let good = Utxo::new(TxOutput::new(5, script.clone()), 1, false).to_bytes();
        db.insert(outpoint_number(1, 0).to_bytes(), good.clone()).unwrap();
        db.insert(vec![9u8; 3], good).unwrap();
        db.flush().unwrap();
    }
    let set = UtxoSet::new(&path).unwrap();
    assert_eq!(set.get_balance(&script), Ok(10));
    assert_eq!(set.get_balance(&[0xbb]), Ok(0));
    assert!(matches!(set.get_utxos_for_script(&script), Err(ErrorKind::MalformedInput)));
    assert_eq!(set.get_utxos_for_script(&[0xbb]).unwrap().len(), 0);
    assert!(matches!(set.get_all_utxos(), Err(ErrorKind::MalformedInput)));
    drop(set);
    {
        let db = sled::open(&path).unwrap();
        db.insert(outpoint_number(2, 0).to_bytes(), vec![1u8, 2]).unwrap();
        db.flush().unwrap();
    }
    let set = UtxoSet::new(&path).unwrap();
    assert_eq!(set.get_balance(&[0xbb]), Err(ErrorKind::MalformedInput));
    assert!(matches!(set.get_utxo(&outpoint_number(2, 0)), Err(ErrorKind::MalformedInput)));
    assert_eq!(set.count(), Ok(3));
    drop(set);
    discard(&path);
}

#[test]
fn candidate_block_values() {
    let block = Block::candidate(Hash256::new([3; 32]), 120, vec![7, 8], 555, 0x207fffff);
    assert_eq!(block.header.version, 1);
    assert_eq!(block.header.prev_block_hash, Hash256::new([3; 32]));
    assert_eq!(block.header.timestamp, 555);
    assert_eq!(block.header.bits, 0x207fffff);
    assert_eq!(block.header.nonce, 0);
    assert_eq!(block.transactions.len(), 1);
    let coinbase = &block.transactions[0];
    assert!(coinbase.is_coinbase());
    assert_eq!(coinbase.inputs[0].script_sig, b"Block 120".to_vec());
    assert_eq!(coinbase.outputs.len(), 1);
    assert_eq!(coinbase.outputs[0].value, 5_000_000_000);
    assert_eq!(coinbase.outputs[0].script_pubkey, vec![7, 8]);
    assert_eq!(block.header.merkle_root, coinbase.txid());
    assert_eq!(BLOCK_REWARD, 50 * 100_000_000);
    let first = Block::candidate(Hash256::zero(), 0, vec![], 0, 0);
    assert_eq!(first.transactions[0].inputs[0].script_sig, b"Block 0".to_vec());
    let last = Block::candidate(Hash256::zero(), u32::MAX, vec![], 0, 0);
    assert_eq!(last.transactions[0].inputs[0].script_sig, b"Block 4294967295".to_vec());
}

#[test]
fn chain_grows_block_by_block() {
    let mut storage = Storage::memory().unwrap();
    assert_eq!(
        storage.next_candidate(vec![1], 10, 0x207fffff).map(|found| found.1),
        Err(ErrorKind::NotInitialized)
    );
    assert!(matches!(
        storage.mine_next_block(&Miner::new(0x207fffff), vec![1], 10),
        Err(ErrorKind::NotInitialized)
    ));
    let genesis = storage.init_genesis().unwrap();
    assert_eq!(genesis, Block::genesis());
    assert_eq!(storage.blockchain.get_chain_height(), Ok(1));
    assert_eq!(storage.blockchain.get_tip(), Ok(Some(genesis.hash())));
    assert_eq!(storage.blockchain.get_block_by_height(0), Ok(Some(genesis.clone())));
    assert_eq!(storage.utxo_set.count(), Ok(1));
    assert_eq!(storage.utxo_set.get_balance(&[]), Ok(5_000_000_000));
    let genesis_coin = OutPoint::new(genesis.transactions[0].txid(), 0);
    let coin = storage.utxo_set.get_utxo(&genesis_coin).unwrap().unwrap();
    assert!(coin.is_coinbase);
    assert_eq!(coin.height, 0);

    let miner = Miner::new(0x2010ffff);
    let reward_script = vec![0xaa, 0xbb];
    let mut previous = genesis.hash();
    for height in 1..4u32 {
        let (candidate, at) = storage.next_candidate(reward_script.clone(), 1000 + height, 0x2010ffff).unwrap();
        assert_eq!(at, height);
        assert_eq!(
            candidate,
            Block::candidate(previous, height, reward_script.clone(), 1000 + height, 0x2010ffff)
        );
        let (block, at, result) =
            storage.mine_next_block(&miner, reward_script.clone(), 1000 + height).unwrap();
        assert_eq!(at, height);
        assert!(result.success);
        assert_eq!(block.header.nonce, result.nonce);
        assert_eq!(block.hash(), result.hash);
        assert_eq!(block.transactions, candidate.transactions);
        assert_eq!(block.header.prev_block_hash, previous);
        assert_eq!(block.header.bits, 0x2010ffff);
        assert!(Target::from_bits(0x2010ffff).is_valid_hash(&block.hash()));
        assert_eq!(storage.blockchain.get_chain_height(), Ok(height + 1));
        assert_eq!(storage.blockchain.get_tip(), Ok(Some(block.hash())));
        assert_eq!(storage.blockchain.get_block_by_height(height), Ok(Some(block.clone())));
        assert_eq!(storage.blockchain.get_block(&block.hash()), Ok(Some(block.clone())));
        assert_eq!(storage.utxo_set.get_balance(&reward_script), Ok(height as u64 * BLOCK_REWARD));
        let validator = bit_coin::BlockValidator::new(0x2010ffff);
        assert_eq!(validator.validate_block(&block), Ok(()));
        previous = block.hash();
    }
    assert_eq!(storage.blockchain.get_block_by_height(0), Ok(Some(genesis)));
    assert_eq!(storage.utxo_set.count(), Ok(4));
    assert_eq!(ErrorKind::MiningFailed.message(), "Mining failed: no nonce meets the target");
}

#[test]
fn append_refuses_blocks_without_coinbase_output() {
    let mut storage = Storage::memory().unwrap();
    let empty = Block::new(BlockHeader::new(1, Hash256::zero(), Hash256::zero(), 0, 0, 0), vec![]);
    assert_eq!(storage.append_block(&empty, 0), Err(ErrorKind::MalformedInput));
    let hollow = Block::new(
        BlockHeader::new(1, Hash256::zero(), Hash256::zero(), 0, 0, 0),
        vec![Transaction::new(vec![], vec![])],
    );
    assert_eq!(storage.append_block(&hollow, 0), Err(ErrorKind::MalformedInput));
    assert_eq!(storage.append_block(&Block::genesis(), u32::MAX), Err(ErrorKind::MalformedInput));
    assert_eq!(storage.blockchain.get_tip(), Ok(None));
    assert_eq!(storage.utxo_set.count(), Ok(0));
    assert_eq!(storage.append_block(&Block::genesis(), 7), Ok(()));
    assert_eq!(storage.blockchain.get_chain_height(), Ok(8));
    assert_eq!(storage.blockchain.get_hash_by_height(7), Ok(Some(Block::genesis().hash())));
}

fn entry(outpoint: &OutPoint, value: u64, script: &[u8]) -> (Vec<u8>, Vec<u8>) {
    (outpoint.to_bytes(), Utxo::new(TxOutput::new(value, script.to_vec()), 3, false).to_bytes())
}

#[test]
fn scans_over_entries_at_hand() {
    let mine = vec![0xaa];
    let theirs = vec![0xbb];
    let entries = vec![
        entry(&outpoint_number(1, 0), 10, &mine),
        entry(&outpoint_number(2, 0), 20, &theirs),
        entry(&outpoint_number(3, 1), 30, &mine),
    ];
    assert_eq!(balance_of(&entries, &mine), Ok(40));
    assert_eq!(balance_of(&entries, &theirs), Ok(20));
    assert_eq!(balance_of(&entries, &[]), Ok(0));
    assert_eq!(balance_of(&[], &mine), Ok(0));
    let found = utxos_for_script_of(&entries, &mine).unwrap();
    assert_eq!(found.len(), 2);
    assert_eq!(found[0].0, outpoint_number(1, 0));
    assert_eq!(found[1].0, outpoint_number(3, 1));
    assert_eq!(found[1].1.output.value, 30);
    assert_eq!(found[1].1.height, 3);
    assert_eq!(utxos_for_script_of(&entries, &[]).unwrap().len(), 0);
    let all = all_utxos_of(&entries).unwrap();
    assert_eq!(all.len(), 3);
    assert_eq!(all[1].0, outpoint_number(2, 0));
    assert_eq!(all[1].1.output.script_pubkey, theirs);
    assert_eq!(all_utxos_of(&[]).unwrap().len(), 0);

    let full = vec![
        entry(&outpoint_number(1, 0), u64::MAX, &mine),
        entry(&outpoint_number(2, 0), 1, &mine),
    ];
    assert_eq!(balance_of(&full, &mine), Ok(u64::MAX));

    let mut bad_key = entries.clone();
    bad_key[1].0 = vec![1, 2, 3];
    assert_eq!(balance_of(&bad_key, &theirs), Ok(20));
    assert_eq!(utxos_for_script_of(&bad_key, &mine).unwrap().len(), 2);
    assert!(matches!(utxos_for_script_of(&bad_key, &theirs), Err(ErrorKind::MalformedInput)));
    assert!(matches!(all_utxos_of(&bad_key), Err(ErrorKind::MalformedInput)));

    let mut bad_value = entries.clone();
    bad_value[2].1 = vec![9; 5];
    assert_eq!(balance_of(&bad_value, &theirs), Err(ErrorKind::MalformedInput));
    assert!(matches!(utxos_for_script_of(&bad_value, &theirs), Err(ErrorKind::MalformedInput)));
    assert!(matches!(all_utxos_of(&bad_value), Err(ErrorKind::MalformedInput)));
}

#[test]
fn stored_values_at_hand() {
    assert_eq!(BlockchainDB::chain_height_value(None), Ok(0));
    assert_eq!(BlockchainDB::chain_height_value(Some(vec![4, 3, 2, 1])), Ok(0x01020304));
    assert_eq!(BlockchainDB::chain_height_value(Some(vec![0xff; 4])), Ok(u32::MAX));
    assert_eq!(BlockchainDB::chain_height_value(Some(vec![1, 0, 0])), Err(ErrorKind::MalformedInput));
    assert_eq!(
        BlockchainDB::chain_height_value(Some(vec![1, 0, 0, 0, 0])),
        Err(ErrorKind::MalformedInput)
    );
    assert_eq!(BlockchainDB::chain_height_value(Some(vec![])), Err(ErrorKind::MalformedInput));
    assert_eq!(BlockchainDB::hash_value(None), Ok(None));
    assert_eq!(BlockchainDB::hash_value(Some(vec![7; 32])), Ok(Some(Hash256::new([7; 32]))));
    assert_eq!(BlockchainDB::hash_value(Some(vec![7; 31])), Err(ErrorKind::MalformedInput));
    assert_eq!(BlockchainDB::hash_value(Some(vec![7; 33])), Err(ErrorKind::MalformedInput));
}

#[test]
fn candidate_on_tip_and_height() {
    let none = Storage::candidate_on(None, 5, vec![1], 10, 0x207fffff);
    assert!(matches!(none, Err(ErrorKind::NotInitialized)));
    let tip = Hash256::new([8; 32]);
    let (block, height) = Storage::candidate_on(Some(tip), 5, vec![1, 2], 10, 0x207fffff).unwrap();
    assert_eq!(height, 5);
    assert_eq!(block, Block::candidate(tip, 5, vec![1, 2], 10, 0x207fffff));
    assert_eq!(block.header.prev_block_hash, tip);
    assert_eq!(block.transactions[0].inputs[0].script_sig, b"Block 5".to_vec());
    assert_eq!(ErrorKind::NotInitialized.message(), "Blockchain not initialized");
}
