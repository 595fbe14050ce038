use bit_coin::chain::script::OpCode;
use bit_coin::primitives::serialize::{Reader, Serializable};
use bit_coin::{
    hash256, Block, BlockHeader, ErrorKind, Hash256, Script, Transaction, TxInput, TxOutput,
};

#[test]
fn test_coinbase_input() {
    let input = TxInput::coinbase(vec![1, 2, 3], 0);
    assert!(input.is_coinbase());
    assert_eq!(input.prev_tx_hash, Hash256::zero());
    assert_eq!(input.prev_index, 0xffffffff);
}

#[test]
fn test_transaction_serialization() {
    let input = TxInput::coinbase(vec![1, 2, 3], 0);
    let output = TxOutput::new(5000000000, vec![4, 5, 6]);
    let tx = Transaction::new(vec![input], vec![output]);

    let serialized = tx.serialize();
    let deserialized = Transaction::deserialize(&serialized).unwrap();

    assert_eq!(tx, deserialized);
}

#[test]
fn test_txid() {
    let input = TxInput::coinbase(vec![1, 2, 3], 0);
    let output = TxOutput::new(5000000000, vec![4, 5, 6]);
    let tx = Transaction::new(vec![input], vec![output]);

    let txid = tx.txid();
    assert_eq!(txid.as_bytes().len(), 32);

    let txid2 = tx.txid();
    assert_eq!(txid, txid2);
}

#[test]
fn test_coinbase_transaction() {
    let output = TxOutput::new(5000000000, vec![1, 2, 3]);
    let tx = Transaction::coinbase(vec![4, 5, 6], output, 0);

    assert!(tx.is_coinbase());
    assert_eq!(tx.inputs.len(), 1);
    assert_eq!(tx.outputs.len(), 1);
}

#[test]
fn transaction_exact_bytes() {
    let input = TxInput::new(Hash256::new([0x11; 32]), 7, vec![0xaa, 0xbb]);
    let output = TxOutput::new(0x0102030405060708, vec![0xcc]);
    let tx = Transaction::new(vec![input], vec![output]);
    let mut expected = vec![1, 0, 0, 0, 1];
    expected.extend_from_slice(&[0x11; 32]);
    expected.extend_from_slice(&[7, 0, 0, 0, 2, 0xaa, 0xbb, 0xff, 0xff, 0xff, 0xff]);
    expected.extend_from_slice(&[1, 8, 7, 6, 5, 4, 3, 2, 1, 1, 0xcc]);
    expected.extend_from_slice(&[0, 0, 0, 0]);
    assert_eq!(tx.serialize(), expected);
    assert_eq!(tx.txid(), hash256(&expected));
    assert_eq!(tx.inputs[0].sequence, 0xffff_ffff);
    assert_eq!(tx.version, 1);
    assert_eq!(tx.lock_time, 0);
}

#[test]
fn transaction_round_trip_with_many_parts() {
    let inputs = vec![
        TxInput::new(Hash256::new([1; 32]), 0, vec![]),
        TxInput::new(Hash256::new([2; 32]), 1, vec![9; 300]),
        TxInput::coinbase(vec![5; 3], 4),
    ];
    let outputs = vec![TxOutput::new(0, vec![]), TxOutput::new(u64::MAX, vec![7; 70000])];
    let mut tx = Transaction::new(inputs, outputs);
    tx.version = 2;
    tx.lock_time = 99;
    let bytes = tx.serialize();
    let back = Transaction::deserialize(&bytes).unwrap();
    assert_eq!(back, tx);
    assert_eq!(back.txid(), tx.txid());
    assert_eq!(back.serialize(), bytes);
    assert_eq!(tx.clone(), tx);
}

#[test]
fn transaction_trailing_bytes_are_ignored_and_short_input_fails() {
    let tx = Transaction::new(
        vec![TxInput::new(Hash256::new([1; 32]), 0, vec![1, 2])],
        vec![TxOutput::new(5, vec![3])],
    );
    let mut bytes = tx.serialize();
    for cut in 0..bytes.len() {
        assert_eq!(Transaction::deserialize(&bytes[..cut]), Err(ErrorKind::MalformedInput));
    }
    bytes.push(0xee);
    assert_eq!(Transaction::deserialize(&bytes), Ok(tx.clone()));
    let mut reader = Reader::new(&bytes);
    assert_eq!(Transaction::from_reader(&mut reader), Ok(tx));
    assert_eq!(reader.remaining_len(), 1);
}

#[test]
fn transaction_with_absurd_count_fails() {
    let mut bytes = vec![1, 0, 0, 0];
    bytes.extend_from_slice(&[0xff; 9]);
    assert_eq!(Transaction::deserialize(&bytes), Err(ErrorKind::MalformedInput));
}

#[test]
fn input_and_output_codecs() {
    let input = TxInput::new(Hash256::new([4; 32]), 3, vec![1, 2, 3]);
    let bytes = input.serialize();
    assert_eq!(bytes.len(), 32 + 4 + 1 + 3 + 4);
    let mut reader = Reader::new(&bytes);
    assert_eq!(TxInput::deserialize(&mut reader), Ok(input.clone()));
    let mut reader = Reader::new(&bytes[..40]);
    assert_eq!(TxInput::deserialize(&mut reader), Err(ErrorKind::MalformedInput));
    assert_eq!(reader.remaining_len(), 40);
    assert!(!input.is_coinbase());
    assert!(!TxInput::new(Hash256::zero(), 0, vec![]).is_coinbase());
    assert!(!TxInput::new(Hash256::new([1; 32]), 0xffff_ffff, vec![]).is_coinbase());

    let output = TxOutput::new(1000, vec![9, 8]);
    let bytes = output.serialize();
    assert_eq!(bytes, vec![0xe8, 3, 0, 0, 0, 0, 0, 0, 2, 9, 8]);
    let mut reader = Reader::new(&bytes);
    assert_eq!(TxOutput::deserialize(&mut reader), Ok(output));
    let mut reader = Reader::new(&bytes[..10]);
    assert_eq!(TxOutput::deserialize(&mut reader), Err(ErrorKind::MalformedInput));
}

#[test]
fn transaction_totals() {
    let tx = Transaction::new(
        vec![TxInput::new(Hash256::new([1; 32]), 0, vec![])],
        vec![TxOutput::new(1000, vec![]), TxOutput::new(2500, vec![])],
    );
    assert_eq!(tx.total_output_value(), 3500);
    assert_eq!(tx.total_input_value(), 0);
    let big = Transaction::new(
        vec![],
        vec![TxOutput::new(u64::MAX, vec![]), TxOutput::new(2, vec![])],
    );
    assert_eq!(big.total_output_value(), u64::MAX);
    assert_eq!(Transaction::new(vec![], vec![]).total_output_value(), 0);
    assert!(!Transaction::new(vec![], vec![]).is_coinbase());
    let two = Transaction::new(
        vec![TxInput::coinbase(vec![], 0), TxInput::coinbase(vec![], 0)],
        vec![],
    );
    assert!(!two.is_coinbase());
}

#[test]
fn test_block_header_serialization() {
    let header = BlockHeader::new(1, Hash256::zero(), Hash256::zero(), 1234567890, 0x1d00ffff, 0);

    let serialized = header.serialize();
    assert_eq!(serialized.len(), 80);

    let deserialized = BlockHeader::deserialize(&serialized).unwrap();
    assert_eq!(header, deserialized);
}

#[test]
fn test_block_hash() {
    let header = BlockHeader::new(1, Hash256::zero(), Hash256::zero(), 1234567890, 0x1d00ffff, 0);

    let hash = header.hash();
    assert_eq!(hash.as_bytes().len(), 32);

    let hash2 = header.hash();
    assert_eq!(hash, hash2);
}

#[test]
fn header_exact_bytes_and_hash() {
    let header = BlockHeader::new(
        0x01020304,
        Hash256::new([0xaa; 32]),
        Hash256::new([0xbb; 32]),
        0x11223344,
        0x1d00ffff,
        0xdeadbeef,
    );
    let mut expected = vec![4, 3, 2, 1];
    expected.extend_from_slice(&[0xaa; 32]);
    expected.extend_from_slice(&[0xbb; 32]);
    expected.extend_from_slice(&[0x44, 0x33, 0x22, 0x11, 0xff, 0xff, 0x00, 0x1d, 0xef, 0xbe, 0xad, 0xde]);
    assert_eq!(header.serialize(), expected);
    assert_eq!(header.hash(), hash256(&expected));
    assert_eq!(BlockHeader::deserialize(&expected), Ok(header.clone()));
    expected.push(1);
    assert_eq!(BlockHeader::deserialize(&expected), Ok(header));
    assert_eq!(BlockHeader::deserialize(&expected[..79]), Err(ErrorKind::MalformedInput));
    assert_eq!(BlockHeader::deserialize(&[]), Err(ErrorKind::MalformedInput));
}

#[test]
fn test_genesis_block() {
    let genesis = Block::genesis();
    assert!(genesis.is_genesis());
    assert_eq!(genesis.transactions.len(), 1);
    assert!(genesis.transactions[0].is_coinbase());
}

#[test]
fn genesis_block_values() {
    let genesis = Block::genesis();
    assert_eq!(genesis.header.version, 1);
    assert_eq!(genesis.header.timestamp, 1_231_006_505);
    assert_eq!(genesis.header.bits, 0x20ff_ffff);
    assert_eq!(genesis.header.nonce, 2);
    assert_eq!(genesis.header.prev_block_hash, Hash256::zero());
    let coinbase = &genesis.transactions[0];
    assert_eq!(
        coinbase.inputs[0].script_sig,
        b"The Times 03/Jan/2009 Chancellor on brink of second bailout for banks".to_vec()
    );
    assert_eq!(coinbase.outputs[0].value, 5_000_000_000);
    assert!(coinbase.outputs[0].script_pubkey.is_empty());
    assert_eq!(genesis.header.merkle_root, coinbase.txid());
    assert_eq!(
        hex::encode(coinbase.txid().as_bytes()),
        "dea5cea70eb2e53937dfb26f835a1c6327a3a6f440b866a60fb716bd504e486c"
    );
    assert_eq!(
        genesis.hash().to_hex(),
        "760082c6f7a0200c6bba73404a3ef4ccaf4f5fbcdbb85eb50cccdeff6d5e6520"
    );
    assert_eq!(genesis.hash(), genesis.header.hash());
    assert_eq!(genesis.height(), 0);
}

#[test]
fn genesis_round_trip() {
    let genesis = Block::genesis();
    assert!(genesis.is_genesis());
    assert_eq!(genesis.transactions.len(), 1);
    let bytes = genesis.serialize();
    let back = Block::deserialize(&bytes).unwrap();
    assert_eq!(back, genesis);
    assert_eq!(back.serialize(), bytes);
    assert_eq!(bytes.len(), 80 + 1 + 129);
}

#[test]
fn block_round_trip_with_several_transactions() {
    let txs = vec![
        Transaction::coinbase(vec![1], TxOutput::new(50, vec![1, 2]), 1),
        Transaction::new(
            vec![TxInput::new(Hash256::new([3; 32]), 1, vec![4; 10])],
            vec![TxOutput::new(20, vec![5]), TxOutput::new(30, vec![])],
        ),
        Transaction::new(vec![], vec![]),
    ];
    let root = Block::calculate_merkle_root(&txs);
    let header = BlockHeader::new(1, Hash256::new([9; 32]), root, 5, 0x207fffff, 77);
    let block = Block::new(header, txs);
    assert!(!block.is_genesis());
    let bytes = block.serialize();
    assert_eq!(Block::deserialize(&bytes), Ok(block.clone()));
    assert_eq!(Block::deserialize(&bytes[..bytes.len() - 1]), Err(ErrorKind::MalformedInput));
    assert_eq!(Block::deserialize(&bytes[..79]), Err(ErrorKind::MalformedInput));
    assert_eq!(block.clone(), block);
}

#[test]
fn test_merkle_root_single_tx() {
    let output = TxOutput::new(5000000000, vec![1, 2, 3]);
    let tx = Transaction::coinbase(vec![4, 5, 6], output, 0);

    let merkle = Block::calculate_merkle_root(&[tx.clone()]);
    let expected = tx.txid();
    assert_eq!(merkle, expected);
}

#[test]
fn test_merkle_root_multiple_tx() {
    let tx1 = Transaction::coinbase(vec![1], TxOutput::new(1000, vec![]), 0);
    let tx2 = Transaction::coinbase(vec![2], TxOutput::new(2000, vec![]), 0);

    let merkle = Block::calculate_merkle_root(&[tx1, tx2]);
    assert_eq!(merkle.as_bytes().len(), 32);
}

fn pair(left: &Hash256, right: &Hash256) -> Hash256 {
    let mut bytes = left.as_bytes().to_vec();
    bytes.extend_from_slice(right.as_bytes());
    hash256(&bytes)
}

fn tx_number(n: u8) -> Transaction {
    Transaction::coinbase(vec![n], TxOutput::new(1000 + n as u64, vec![]), 0)
}

#[test]
fn merkle_root_values() {
    assert_eq!(Block::calculate_merkle_root(&[]), Hash256::zero());
    let txs: Vec<Transaction> = (0..5).map(tx_number).collect();
    let ids: Vec<Hash256> = txs.iter().map(|tx| tx.txid()).collect();
    assert_eq!(Block::calculate_merkle_root(&txs[..2]), pair(&ids[0], &ids[1]));
    let three = pair(&pair(&ids[0], &ids[1]), &pair(&ids[2], &ids[2]));
    assert_eq!(Block::calculate_merkle_root(&txs[..3]), three);
    let four = pair(&pair(&ids[0], &ids[1]), &pair(&ids[2], &ids[3]));
    assert_eq!(Block::calculate_merkle_root(&txs[..4]), four);
    let five = pair(&four, &pair(&pair(&ids[4], &ids[4]), &pair(&ids[4], &ids[4])));
    assert_eq!(Block::calculate_merkle_root(&txs), five);
}

#[test]
fn merkle_root_of_odd_list_equals_list_with_last_repeated() {
    let txs: Vec<Transaction> = (0..5).map(tx_number).collect();
    let mut three = txs[..3].to_vec();
    let odd = Block::calculate_merkle_root(&three);
    three.push(txs[2].clone());
    assert_eq!(Block::calculate_merkle_root(&three), odd);
    let mut five = txs.clone();
    let odd = Block::calculate_merkle_root(&five);
    five.push(txs[4].clone());
    assert_eq!(Block::calculate_merkle_root(&five), odd);
    let one = Block::calculate_merkle_root(&txs[..1]);
    let doubled = Block::calculate_merkle_root(&[txs[0].clone(), txs[0].clone()]);
    assert_ne!(one, doubled);
}

#[test]
fn test_p2pkh_script_creation() {
    let pubkey_hash = [0x12; 20];
    let script = Script::p2pkh_script_pubkey(&pubkey_hash);

    assert_eq!(script.len(), 25);
    assert_eq!(script[0], OpCode::OpDup.to_byte());
    assert_eq!(script[1], OpCode::OpHash160.to_byte());
    assert_eq!(script[2], OpCode::OpPushBytes20.to_byte());
    assert_eq!(&script[3..23], &pubkey_hash);
    assert_eq!(script[23], OpCode::OpEqualVerify.to_byte());
    assert_eq!(script[24], OpCode::OpCheckSig.to_byte());
}

#[test]
fn test_script_sig_creation() {
    let signature = vec![1, 2, 3, 4];
    let pubkey = vec![5, 6, 7, 8];

    let script_sig = Script::p2pkh_script_sig(&signature, &pubkey);

    assert_eq!(script_sig[0], 4);
    assert_eq!(&script_sig[1..5], &signature[..]);
    assert_eq!(script_sig[5], 4);
    assert_eq!(&script_sig[6..10], &pubkey[..]);
}

#[test]
fn test_parse_script_pubkey() {
    let pubkey_hash = [0x12; 20];
    let script = Script::p2pkh_script_pubkey(&pubkey_hash);

    let parsed = Script::parse_script_pubkey(&script).unwrap();
    assert_eq!(parsed, pubkey_hash);
}

#[test]
fn opcode_bytes() {
    assert_eq!(OpCode::OpDup.to_byte(), 0x76);
    assert_eq!(OpCode::OpHash160.to_byte(), 0xa9);
    assert_eq!(OpCode::OpPushBytes20.to_byte(), 0x14);
    assert_eq!(OpCode::OpEqualVerify.to_byte(), 0x88);
    assert_eq!(OpCode::OpCheckSig.to_byte(), 0xac);
    assert_eq!(OpCode::from_byte(0x76), Some(OpCode::OpDup));
    assert_eq!(OpCode::from_byte(0xa9), Some(OpCode::OpHash160));
    assert_eq!(OpCode::from_byte(0x14), Some(OpCode::OpPushBytes20));
    assert_eq!(OpCode::from_byte(0x88), Some(OpCode::OpEqualVerify));
    assert_eq!(OpCode::from_byte(0xac), Some(OpCode::OpCheckSig));
    assert_eq!(OpCode::from_byte(0x00), None);
    assert_eq!(OpCode::from_byte(0x77), None);
}

#[test]
fn script_pubkey_template_is_exact() {
    let good = Script::p2pkh_script_pubkey(&[7; 20]);
    for position in [0usize, 1, 2, 23, 24] {
        let mut bad = good.clone();
        bad[position] ^= 1;
        assert_eq!(Script::parse_script_pubkey(&bad), Err(ErrorKind::MalformedScript));
    }
    assert_eq!(Script::parse_script_pubkey(&good[..24]), Err(ErrorKind::MalformedScript));
    let mut long = good.clone();
    long.push(0);
    assert_eq!(Script::parse_script_pubkey(&long), Err(ErrorKind::MalformedScript));
    assert_eq!(Script::parse_script_pubkey(&[]), Err(ErrorKind::MalformedScript));
}

#[test]
fn script_sig_parsing() {
    let script = Script::p2pkh_script_sig(&[1, 2, 3], &[4, 5]);
    assert_eq!(script, vec![3, 1, 2, 3, 2, 4, 5]);
    assert_eq!(Script::parse_script_sig(&script), Ok((vec![1, 2, 3], vec![4, 5])));
    let mut longer = script.clone();
    longer.push(9);
    assert_eq!(Script::parse_script_sig(&longer), Ok((vec![1, 2, 3], vec![4, 5])));
    assert_eq!(Script::parse_script_sig(&[]), Err(ErrorKind::MalformedScript));
    assert_eq!(Script::parse_script_sig(&[3, 1, 2]), Err(ErrorKind::MalformedScript));
    assert_eq!(Script::parse_script_sig(&[3, 1, 2, 3]), Err(ErrorKind::MalformedScript));
    assert_eq!(Script::parse_script_sig(&[3, 1, 2, 3, 2, 4]), Err(ErrorKind::MalformedScript));
    assert_eq!(Script::parse_script_sig(&[0, 0]), Ok((vec![], vec![])));
    let wide = Script::p2pkh_script_sig(&[7; 256], &[]);
    assert_eq!(wide[0], 0);
    assert_eq!(wide.len(), 258);
}

#[test]
fn verify_p2pkh_reports_malformed_scripts() {
    let pubkey_script = Script::p2pkh_script_pubkey(&[1; 20]);
    let digest = [0x42; 32];
    assert_eq!(
        Script::verify_p2pkh(&[], &pubkey_script, &digest),
        Err(ErrorKind::MalformedScript)
    );
    let script_sig = Script::p2pkh_script_sig(&[1, 2], &[3, 4]);
    assert_eq!(
        Script::verify_p2pkh(&script_sig, &[0x76], &digest),
        Err(ErrorKind::MalformedScript)
    );
    assert_eq!(Script::verify_p2pkh(&script_sig, &pubkey_script, &digest), Ok(false));
    let matching = Script::p2pkh_script_pubkey(&bit_coin::hash160(&[3, 4]));
    assert_eq!(
        Script::verify_p2pkh(&script_sig, &matching, &digest),
        Err(ErrorKind::MalformedScript)
    );
    assert_eq!(
        Script::verify_signature(&[1, 2], &[3, 4], &digest),
        Err(ErrorKind::MalformedScript)
    );
}
