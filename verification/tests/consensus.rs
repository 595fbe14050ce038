use bit_coin::consensus::gpu_pow::{GpuResult, GpuStep, NONCES_PER_DISPATCH};
use bit_coin::consensus::validation::{signing_digest, unsigned_copy, MAX_MONEY};
use bit_coin::consensus::{GpuMiner, ValidationError};
use bit_coin::{
    Block, BlockHeader, BlockValidator, Hash256, KeyPair, Miner, Target, Transaction,
    TransactionValidator, TxInput, TxOutput,
};

#[test]
fn test_target_conversion() {
    let target = Target::from_bits(0x1d00ffff);
    let hash = target.to_hash256();

    assert_ne!(hash, Hash256::zero());
}

#[test]
fn test_target_validation() {
    let target = Target::from_bits(0x1d00ffff);

    assert!(target.is_valid_hash(&Hash256::zero()));

    assert!(!target.is_valid_hash(&Hash256::new([0xff; 32])));
}

#[test]
fn test_pow_mining_easy() {
    let miner = Miner::new(0x207fffff);

    let mut header =
        BlockHeader::new(1, Hash256::zero(), Hash256::zero(), 1234567890, 0x207fffff, 0);

    let result = miner.mine(&mut header);
    assert!(result.success);
    assert!(miner.verify(&header));
    println!("Mining took {} attempts in {:?}", result.attempts, result.duration);
}

#[test]
fn test_pow_verification() {
}

#[test]
fn test_leading_zeros() {
    let target = Target::from_bits(0x1d00ffff);
    let zeros = target.leading_zeros();

    assert!(zeros > 0);
    println!("Leading zeros: {}", zeros);
}

fn target_bytes(bits: u32) -> [u8; 32] {
    *Target::from_bits(bits).to_hash256().as_bytes()
}

fn bytes_with(at: usize, window: [u8; 3]) -> [u8; 32] {
    let mut bytes = [0u8; 32];
    bytes[at] = window[0];
    bytes[at + 1] = window[1];
    bytes[at + 2] = window[2];
    bytes
}

#[test]
fn target_bytes_are_big_endian() {
    assert_eq!(target_bytes(0x1d00ffff), bytes_with(3, [0x00, 0xff, 0xff]));
    assert_eq!(target_bytes(0x207fffff), bytes_with(0, [0x7f, 0xff, 0xff]));
    assert_eq!(target_bytes(0x20ffffff), bytes_with(0, [0xff, 0xff, 0xff]));
    assert_eq!(target_bytes(0x04123456), bytes_with(28, [0x12, 0x34, 0x56]));
    assert_eq!(target_bytes(0x03123456), bytes_with(29, [0x12, 0x34, 0x56]));
    assert_eq!(target_bytes(0x02123456), bytes_with(29, [0x00, 0x12, 0x34]));
    assert_eq!(target_bytes(0x01123456), bytes_with(29, [0x00, 0x00, 0x12]));
    assert_eq!(target_bytes(0x00123456), [0u8; 32]);
    assert_eq!(target_bytes(0x21123456), [0u8; 32]);
    assert_eq!(target_bytes(0xff123456), [0u8; 32]);
    assert_eq!(Target::from_bits(7).bits, 7);
}

#[test]
fn target_leading_zeros_values() {
    assert_eq!(Target::from_bits(0x1d00ffff).leading_zeros(), 32);
    assert_eq!(Target::from_bits(0x207fffff).leading_zeros(), 1);
    assert_eq!(Target::from_bits(0x20ffffff).leading_zeros(), 0);
    assert_eq!(Target::from_bits(0x03000001).leading_zeros(), 255);
    assert_eq!(Target::from_bits(0x00000000).leading_zeros(), 256);
}

#[test]
fn hash_validity_is_strictly_below_target() {
    let target = Target::from_bits(0x04123456);
    let equal = Hash256::new(bytes_with(28, [0x12, 0x34, 0x56]));
    assert!(!target.is_valid_hash(&equal));
    let below = Hash256::new(bytes_with(28, [0x12, 0x34, 0x55]));
    assert!(target.is_valid_hash(&below));
    let mut low_tail = bytes_with(28, [0x12, 0x34, 0x55]);
    low_tail[31] = 0xff;
    assert!(target.is_valid_hash(&Hash256::new(low_tail)));
    let mut above = [0u8; 32];
    above[27] = 1;
    assert!(!target.is_valid_hash(&Hash256::new(above)));
    let zero_target = Target::from_bits(0);
    assert!(!zero_target.is_valid_hash(&Hash256::zero()));
    let miner = Miner::new(0x04123456);
    assert!(miner.is_valid_hash_fast(&below));
    assert!(!miner.is_valid_hash_fast(&equal));
    assert_eq!(miner.target().bits, 0x04123456);
}

#[test]
fn mine_easy_block() {
    let bits = 0x207fffff;
    let miner = Miner::new(bits);
    let mut header = BlockHeader::new(1, Hash256::zero(), Hash256::zero(), 1_234_567_890, bits, 0);
    let result = miner.mine(&mut header);
    assert!(result.success);
    assert_eq!(result.nonce, 0);
    assert_eq!(result.attempts, 1);
    assert_eq!(header.nonce, result.nonce);
    assert_eq!(result.hash, header.hash());
    assert!(Target::from_bits(bits).is_valid_hash(&header.hash()));
    assert!(miner.verify(&header));
    let validator = BlockValidator::new(bits);
    assert_eq!(validator.validate_header(&header), Ok(()));
}

#[test]
fn mining_finds_the_first_winning_nonce() {
    let bits = 0x2010ffff;
    let miner = Miner::new(bits);
    let target = Target::from_bits(bits);
    let mut header = BlockHeader::new(1, Hash256::new([5; 32]), Hash256::zero(), 77, bits, 999);
    let result = miner.mine(&mut header);
    assert!(result.success);
    assert_eq!(result.attempts, result.nonce as u64 + 1);
    assert_eq!(header.nonce, result.nonce);
    assert_eq!(header.version, 1);
    assert_eq!(header.timestamp, 77);
    assert_eq!(header.prev_block_hash, Hash256::new([5; 32]));
    for nonce in 0..result.nonce {
        let mut earlier = header.clone();
        earlier.nonce = nonce;
        assert!(!target.is_valid_hash(&earlier.hash()));
    }
    let mut changed = header.clone();
    changed.timestamp = 78;
    let again = miner.mine(&mut changed);
    assert!(again.success);
    let gpu = GpuMiner::new(bits);
    let mut same = header.clone();
    same.nonce = 5;
    let fallback = gpu.mine(&mut same);
    assert!(fallback.success);
    assert_eq!(fallback.nonce, result.nonce);
}

#[test]
fn test_validate_genesis_block() {
    let validator = BlockValidator::new(0x1d00ffff);
    let genesis = Block::genesis();

    assert!(validator.validate_block(&genesis).is_ok());
}

#[test]
fn test_validate_header_pow() {
    let validator = BlockValidator::new(0x20ffffff);

    let genesis_header =
        BlockHeader::new(1, Hash256::zero(), Hash256::zero(), 1231006505, 0x20ffffff, 0);

    assert!(validator.validate_header(&genesis_header).is_ok());

    let chained_header =
        BlockHeader::new(1, Hash256::new([1; 32]), Hash256::zero(), 1234567890, 0x20ffffff, 0);

    assert_eq!(
        BlockValidator::new(0x1d00ffff).validate_header(&chained_header),
        Err(ValidationError::InvalidProofOfWork)
    );
    assert!(chained_header.hash().as_bytes()[0] < 0xff);
    assert_eq!(validator.validate_header(&chained_header), Ok(()));
}

#[test]
fn test_validate_block_no_transactions() {
    let validator = BlockValidator::new(0x20ffffff);

    let header = BlockHeader::new(1, Hash256::zero(), Hash256::zero(), 1234567890, 0x20ffffff, 0);

    let block = Block::new(header, vec![]);

    assert_eq!(validator.validate_block(&block), Err(ValidationError::NoTransactions));
}

#[test]
fn test_validate_block_missing_coinbase() {
    let validator = BlockValidator::new(0x207fffff);

    let tx = Transaction::new(
        vec![TxInput::new(Hash256::new([1; 32]), 0, vec![])],
        vec![TxOutput::new(1000, vec![])],
    );

    let merkle = Block::calculate_merkle_root(&[tx.clone()]);
    let mut header = BlockHeader::new(1, Hash256::zero(), merkle, 1234567890, 0x207fffff, 0);

    let miner = Miner::new(0x207fffff);
    miner.mine(&mut header);

    let block = Block::new(header, vec![tx]);

    assert_eq!(validator.validate_block(&block), Err(ValidationError::MissingCoinbase));
}

#[test]
fn test_validate_mempool_transaction() {
    let tx = Transaction::new(
        vec![TxInput::new(Hash256::new([1; 32]), 0, vec![1, 2, 3])],
        vec![TxOutput::new(1000, vec![4, 5, 6])],
    );

    assert!(TransactionValidator::validate_for_mempool(&tx).is_ok());

    let coinbase = Transaction::coinbase(vec![1, 2, 3], TxOutput::new(5000000000, vec![]), 0);

    assert_eq!(
        TransactionValidator::validate_for_mempool(&coinbase),
        Err(ValidationError::CoinbaseNotFirst)
    );
}

#[test]
fn mempool_limits() {
    let input = || TxInput::new(Hash256::new([1; 32]), 0, vec![]);
    let at_limit = Transaction::new(vec![input()], vec![TxOutput::new(MAX_MONEY, vec![])]);
    assert_eq!(TransactionValidator::validate_for_mempool(&at_limit), Ok(()));
    let above = Transaction::new(
        vec![input()],
        vec![TxOutput::new(MAX_MONEY, vec![]), TxOutput::new(1, vec![])],
    );
    assert_eq!(
        TransactionValidator::validate_for_mempool(&above),
        Err(ValidationError::OutputValueExceedsMax)
    );
    let wrapping = Transaction::new(
        vec![input()],
        vec![TxOutput::new(u64::MAX, vec![]), TxOutput::new(2, vec![])],
    );
    assert_eq!(
        TransactionValidator::validate_for_mempool(&wrapping),
        Err(ValidationError::OutputValueExceedsMax)
    );
    let no_inputs = Transaction::new(vec![], vec![TxOutput::new(1, vec![])]);
    assert_eq!(
        TransactionValidator::validate_for_mempool(&no_inputs),
        Err(ValidationError::EmptyTransaction)
    );
    let no_outputs = Transaction::new(vec![input()], vec![]);
    assert_eq!(
        TransactionValidator::validate_for_mempool(&no_outputs),
        Err(ValidationError::EmptyTransaction)
    );
    assert_eq!(MAX_MONEY, 21_000_000 * 100_000_000);
}

#[test]
fn header_rules_at_a_given_time() {
    let validator = BlockValidator::new(0x20ffffff);
    let header = |version: u32, timestamp: u32| {
        BlockHeader::new(version, Hash256::zero(), Hash256::zero(), timestamp, 0x20ffffff, 0)
    };
    assert_eq!(validator.validate_header_at(&header(1, 1000), 1000), Ok(()));
    assert_eq!(validator.validate_header_at(&header(1, 8200), 1000), Ok(()));
    assert_eq!(
        validator.validate_header_at(&header(1, 8201), 1000),
        Err(ValidationError::InvalidTimestamp)
    );
    assert_eq!(
        validator.validate_header_at(&header(0, 1000), 1000),
        Err(ValidationError::InvalidVersion)
    );
    assert_eq!(
        validator.validate_header_at(&header(0, 9000), 1000),
        Err(ValidationError::InvalidVersion)
    );
    assert_eq!(validator.validate_header_at(&header(2, u32::MAX), u64::MAX), Ok(()));
    let strict = BlockValidator::new(0);
    let chained = BlockHeader::new(0, Hash256::new([1; 32]), Hash256::zero(), 9000, 0, 0);
    assert_eq!(
        strict.validate_header_at(&chained, 1000),
        Err(ValidationError::InvalidProofOfWork)
    );
    assert_eq!(
        validator.validate_header(&header(1, u32::MAX)),
        Err(ValidationError::InvalidTimestamp)
    );
}

fn block_of(txs: Vec<Transaction>) -> Block {
    let root = Block::calculate_merkle_root(&txs);
    Block::new(BlockHeader::new(1, Hash256::zero(), root, 1000, 0x20ffffff, 0), txs)
}

#[test]
fn block_rules_in_order() {
    let validator = BlockValidator::new(0x20ffffff);
    let coinbase = || Transaction::coinbase(vec![1], TxOutput::new(50, vec![]), 0);
    let spend = || {
        Transaction::new(
            vec![TxInput::new(Hash256::new([1; 32]), 0, vec![])],
            vec![TxOutput::new(10, vec![])],
        )
    };
    assert_eq!(validator.validate_block_at(&block_of(vec![coinbase(), spend()]), 1000), Ok(()));
    assert_eq!(
        validator.validate_block_at(&block_of(vec![spend()]), 1000),
        Err(ValidationError::MissingCoinbase)
    );
    assert_eq!(
        validator.validate_block_at(&block_of(vec![coinbase(), spend(), coinbase()]), 1000),
        Err(ValidationError::CoinbaseNotFirst)
    );
    let mut wrong_root = block_of(vec![coinbase(), spend()]);
    wrong_root.header.merkle_root = Hash256::new([9; 32]);
    assert_eq!(
        validator.validate_block_at(&wrong_root, 1000),
        Err(ValidationError::InvalidMerkleRoot)
    );
    let empty = Transaction::new(vec![TxInput::new(Hash256::new([1; 32]), 0, vec![])], vec![]);
    assert_eq!(
        validator.validate_block_at(&block_of(vec![coinbase(), empty]), 1000),
        Err(ValidationError::EmptyTransaction)
    );
    let hollow_coinbase = Transaction::new(vec![TxInput::coinbase(vec![], 0)], vec![]);
    assert_eq!(
        validator.validate_block_at(&block_of(vec![hollow_coinbase]), 1000),
        Err(ValidationError::EmptyTransaction)
    );
    let mut late = block_of(vec![]);
    late.header.timestamp = 9000;
    assert_eq!(
        validator.validate_block_at(&late, 1000),
        Err(ValidationError::InvalidTimestamp)
    );
    assert_eq!(validator.validate_transaction(&coinbase()), Ok(()));
    assert_eq!(validator.validate_transaction(&spend()), Ok(()));
    assert_eq!(
        validator.validate_transaction(&Transaction::new(vec![], vec![])),
        Err(ValidationError::EmptyTransaction)
    );
}

#[test]
fn signature_validation() {
    let validator = BlockValidator::new(0x20ffffff);
    let pair = KeyPair::generate();
    let other = KeyPair::generate();
    let mut tx = Transaction::new(
        vec![
            TxInput::new(Hash256::new([1; 32]), 0, vec![]),
            TxInput::coinbase(vec![], 0),
        ],
        vec![TxOutput::new(10, vec![])],
    );
    let digest = tx.txid();
    assert_eq!(signing_digest(&tx), digest);
    tx.inputs[0].script_sig = pair.sign(digest.as_bytes());
    assert_ne!(tx.txid(), digest);
    assert_eq!(signing_digest(&tx), digest);
    assert_eq!(unsigned_copy(&tx).inputs[0].script_sig, Vec::<u8>::new());
    assert_eq!(unsigned_copy(&tx).outputs, tx.outputs);
    assert_eq!(validator.validate_transaction_signature(&tx, 0, &pair.script_pubkey()), Ok(()));
    assert_eq!(
        validator.validate_transaction_signature(&tx, 0, &other.script_pubkey()),
        Err(ValidationError::InvalidSignature)
    );
    assert_eq!(
        validator.validate_transaction_signature(&tx, 0, &[1, 2, 3]),
        Err(ValidationError::InvalidSignature)
    );
    assert_eq!(validator.validate_transaction_signature(&tx, 1, &[1, 2, 3]), Ok(()));
    assert_eq!(
        validator.validate_transaction_signature(&tx, 2, &pair.script_pubkey()),
        Err(ValidationError::EmptyTransaction)
    );
    tx.outputs[0].value = 11;
    assert_eq!(
        validator.validate_transaction_signature(&tx, 0, &pair.script_pubkey()),
        Err(ValidationError::InvalidSignature)
    );
}

#[test]
fn validation_error_messages() {
    assert_eq!(ValidationError::InvalidProofOfWork.message(), "Invalid proof of work");
    assert_eq!(ValidationError::InvalidMerkleRoot.message(), "Invalid merkle root");
    assert_eq!(ValidationError::NoTransactions.message(), "Block has no transactions");
    assert_eq!(ValidationError::MissingCoinbase.message(), "Missing coinbase transaction");
    assert_eq!(ValidationError::MultipleCoinbase.message(), "Multiple coinbase transactions");
    assert_eq!(ValidationError::EmptyTransaction.message(), "Empty transaction");
    assert_eq!(ValidationError::InvalidSignature.message(), "Invalid signature");
    assert_eq!(ValidationError::CoinbaseNotFirst.message(), "Coinbase not in first position");
    assert_eq!(ValidationError::InvalidTimestamp.message(), "Invalid timestamp");
    assert_eq!(ValidationError::InvalidVersion.message(), "Invalid version");
    assert_eq!(
        ValidationError::InvalidCoinbaseInputCount.message(),
        "Coinbase must have exactly one input"
    );
    assert_eq!(
        ValidationError::OutputValueExceedsMax.message(),
        "Total output value exceeds maximum supply"
    );
}

fn winning_nonces(header: &BlockHeader, bits: u32, from: u32, count: u32) -> Vec<u32> {
    let target = Target::from_bits(bits);
    let mut found = Vec::new();
    for offset in 0..count {
        let mut probe = header.clone();
        probe.nonce = from.wrapping_add(offset);
        if target.is_valid_hash(&probe.hash()) {
            found.push(probe.nonce);
        }
    }
    found
}

#[test]
fn gpu_batch_parameters() {
    let bits = 0x1d00ffff;
    let miner = GpuMiner::new(bits);
    let header = BlockHeader::new(
        0x01020304,
        Hash256::new([0xaa; 32]),
        Hash256::new([0xbb; 32]),
        0x11223344,
        bits,
        0xdeadbeef,
    );
    let search = miner.begin();
    assert_eq!(search.start_nonce(), 0);
    let params = miner.batch_params(&header, &search);
    assert_eq!(params.start_nonce, 0);
    assert_eq!(params.header_prefix[0], 0x01020304);
    assert_eq!(params.header_prefix[1], 0xaaaaaaaa);
    assert_eq!(params.header_prefix[9], 0xbbbbbbbb);
    assert_eq!(params.header_prefix[17], 0x11223344);
    assert_eq!(params.header_prefix[18], bits);
    assert_eq!(params.target_be, [0, 0xffff0000, 0, 0, 0, 0, 0, 0]);
    let easy = GpuMiner::new(0x207fffff);
    assert_eq!(easy.batch_params(&header, &search).target_be[0], 0x7fffff00);
    assert_eq!(NONCES_PER_DISPATCH, 256 * 4096);
}

#[test]
fn gpu_host_checks_claims_and_advances() {
    let bits = 0x2010ffff;
    let miner = GpuMiner::new(bits);
    let header = BlockHeader::new(1, Hash256::new([5; 32]), Hash256::zero(), 77, bits, 0);
    let winners = winning_nonces(&header, bits, 0, 2000);
    assert!(winners.len() > 2);
    let winner = winners[1];

    let mut work = header.clone();
    let step = miner.after_batch(&mut work, miner.begin(), &GpuResult { found: 1, nonce: winner });
    match step {
        GpuStep::Done(result) => {
            assert!(result.success);
            assert_eq!(result.nonce, winner);
            assert_eq!(work.nonce, winner);
            assert_eq!(result.hash, work.hash());
            assert_eq!(result.attempts, NONCES_PER_DISPATCH as u64);
        }
        GpuStep::NextBatch(_) => panic!("a true claim ends the search"),
    }

    let loser = (0..2000u32).find(|n| !winners.contains(n) && winners.iter().any(|w| *w > *n && *w - *n <= 256)).unwrap();
    let next_winner = *winners.iter().find(|w| **w > loser).unwrap();
    let mut work = header.clone();
    let step = miner.after_batch(&mut work, miner.begin(), &GpuResult { found: 1, nonce: loser });
    match step {
        GpuStep::Done(result) => {
            assert!(result.success);
            assert_eq!(result.nonce, next_winner);
            assert_eq!(work.nonce, next_winner);
            assert_eq!(
                result.attempts,
                NONCES_PER_DISPATCH as u64 + (next_winner - loser) as u64
            );
        }
        GpuStep::NextBatch(_) => panic!("the sweep finds the next winner"),
    }

    let mut work = header.clone();
    let mut search = miner.begin();
    let mut batches = 0u32;
    loop {
        match miner.after_batch(&mut work, search, &GpuResult { found: 0, nonce: winner }) {
            GpuStep::NextBatch(next) => {
                batches += 1;
                assert_eq!(next.start_nonce(), batches * NONCES_PER_DISPATCH);
                assert_eq!(work.nonce, 0);
                search = next;
            }
            GpuStep::Done(result) => {
                assert!(!result.success);
                assert_eq!(result.nonce, 0);
                assert_eq!(result.hash, Hash256::zero());
                assert_eq!(result.attempts, 1u64 << 32);
                break;
            }
        }
    }
    assert_eq!(batches, 4095);
}

#[test]
fn gpu_sweep_gives_up_after_256_nonces() {
    let miner = GpuMiner::new(0);
    let mut header = BlockHeader::new(1, Hash256::zero(), Hash256::zero(), 1, 0, 0);
    let step = miner.after_batch(&mut header, miner.begin(), &GpuResult { found: 7, nonce: u32::MAX - 3 });
    match step {
        GpuStep::NextBatch(next) => {
            assert_eq!(next.start_nonce(), NONCES_PER_DISPATCH);
            assert_eq!(header.nonce, 252);
        }
        GpuStep::Done(_) => panic!("nothing wins against a zero target"),
    }
}

#[test]
fn worker_rule_agrees_with_the_validity_test() {
    let bits = 0x04123456;
    let miner = GpuMiner::new(bits);
    let header = BlockHeader::new(1, Hash256::zero(), Hash256::zero(), 1, bits, 0);
    let params = miner.batch_params(&header, &miner.begin());
    let target = Target::from_bits(bits);
    let mut samples = vec![
        Hash256::zero(),
        Hash256::new([0xff; 32]),
        Hash256::new(bytes_with(28, [0x12, 0x34, 0x56])),
        Hash256::new(bytes_with(28, [0x12, 0x34, 0x55])),
        Hash256::new(bytes_with(28, [0x12, 0x34, 0x57])),
        Hash256::new(bytes_with(27, [0x01, 0x00, 0x00])),
        Hash256::new(bytes_with(29, [0xff, 0xff, 0xff])),
    ];
    let mut tail = bytes_with(28, [0x12, 0x34, 0x55]);
    tail[31] = 0xff;
    samples.push(Hash256::new(tail));
    for hash in &samples {
        assert_eq!(params.claims(hash), target.is_valid_hash(hash));
    }
    assert!(params.claims(&samples[3]));
    assert!(!params.claims(&samples[2]));
}

#[test]
fn software_device_drives_the_search() {
    let bits = 0x2001ffff;
    let miner = GpuMiner::new(bits);
    let mut header = BlockHeader::new(1, Hash256::new([6; 32]), Hash256::zero(), 9, bits, 0);
    let expected = Miner::new(bits).mine(&mut header.clone());
    assert!(expected.success);
    let search = miner.begin();
    let params = miner.batch_params(&header, &search);
    let mut report = GpuResult { found: 0, nonce: 0 };
    for worker in 0..4096u32 {
        let mut probe = header.clone();
        probe.nonce = params.start_nonce + worker;
        if report.found == 0 && params.claims(&probe.hash()) {
            report = GpuResult { found: 1, nonce: probe.nonce };
        }
    }
    assert_eq!(report.found, 1);
    assert_eq!(report.nonce, expected.nonce);
    match miner.after_batch(&mut header, search, &report) {
        GpuStep::Done(result) => {
            assert!(result.success);
            assert_eq!(result.nonce, expected.nonce);
            assert_eq!(result.hash, expected.hash);
            assert_eq!(header.nonce, expected.nonce);
        }
        GpuStep::NextBatch(_) => panic!("the claimed nonce wins"),
    }
}
