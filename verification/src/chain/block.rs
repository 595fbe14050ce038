//! Block headers, blocks and the Merkle root of a block's transactions.

use crate::chain::transaction::{
    Transaction, TransactionView, TxInputView, TxOutput, TxOutputView, COINBASE_INDEX,
};
use crate::error::{decimal, spec_decimal, ErrorKind};
use crate::primitives::bytes::append;
use crate::primitives::hash::{hash256, spec_hash256};
use crate::primitives::serialize::{
    all_valid, lemma_counted_round_trip, lemma_hash_round_trip, lemma_u32_round_trip,
    parse_counted, parse_hash, parse_u32, read_counted, views, wire_counted, write_counted,
    write_u32, Reader, Serializable, Wire,
};
use crate::primitives::types::Hash256;
use vstd::bytes::spec_u32_to_le_bytes;
use vstd::prelude::*;
use vstd::string::{StringExecFns, StringSliceAdditionalSpecFns};

verus! {

/// The 80-byte header of a block.
#[derive(Debug, PartialEq, Eq)]
pub struct BlockHeader {
    /// The format version.
    pub version: u32,
    /// The hash of the block before this one; zero for the first block.
    pub prev_block_hash: Hash256,
    /// The Merkle root of the block's transactions.
    pub merkle_root: Hash256,
    /// Seconds since the Unix epoch.
    pub timestamp: u32,
    /// The target, in compact form.
    pub bits: u32,
    /// The value that the miner varies.
    pub nonce: u32,
}

/// What a [`BlockHeader`] holds.
pub struct BlockHeaderView {
    pub version: u32,
    pub prev_block_hash: Seq<u8>,
    pub merkle_root: Seq<u8>,
    pub timestamp: u32,
    pub bits: u32,
    pub nonce: u32,
}

impl View for BlockHeader {
    type V = BlockHeaderView;

    open spec fn view(&self) -> BlockHeaderView {
        BlockHeaderView {
            version: self.version,
            prev_block_hash: self.prev_block_hash@,
            merkle_root: self.merkle_root@,
            timestamp: self.timestamp,
            bits: self.bits,
            nonce: self.nonce,
        }
    }
}

impl Clone for BlockHeader {
    fn clone(&self) -> (copy: Self)
        ensures
            copy == *self,
    {
        BlockHeader {
            version: self.version,
            prev_block_hash: self.prev_block_hash,
            merkle_root: self.merkle_root,
            timestamp: self.timestamp,
            bits: self.bits,
            nonce: self.nonce,
        }
    }
}

impl BlockHeaderView {
    /// The block hash: the double hash of the 80 header bytes.
    pub open spec fn hash(self) -> Seq<u8> {
        spec_hash256(BlockHeader::wire(self))
    }

    /// The same header with another nonce.
    pub open spec fn with_nonce(self, nonce: u32) -> BlockHeaderView {
        BlockHeaderView { nonce, ..self }
    }
}

impl BlockHeader {
    /// A header of the given fields.
    pub fn new(
        version: u32,
        prev_block_hash: Hash256,
        merkle_root: Hash256,
        timestamp: u32,
        bits: u32,
        nonce: u32,
    ) -> (header: Self)
        ensures
            header == (BlockHeader { version, prev_block_hash, merkle_root, timestamp, bits, nonce }),
    {
        BlockHeader { version, prev_block_hash, merkle_root, timestamp, bits, nonce }
    }

    /// The block hash, in internal byte order.
    pub fn hash(&self) -> (h: Hash256)
        ensures
            h@ == self@.hash(),
    {
        let serialized = self.serialize();
        hash256(serialized.as_slice())
    }

    /// The 80 header bytes: version, previous hash, Merkle root, timestamp,
    /// bits and nonce, the integers little-endian.
    pub fn serialize(&self) -> (out: Vec<u8>)
        ensures
            out@ == Self::wire(self@),
            out@.len() == 80,
    {
        let mut out: Vec<u8> = Vec::new();
        self.write(&mut out);
        proof {
            assert(Seq::<u8>::empty() + Self::wire(self@) =~= Self::wire(self@));
            Self::lemma_wire_len(self@);
        }
        out
    }

    /// Reads a header from the first 80 bytes of `data`.
    pub fn deserialize(data: &[u8]) -> (r: Result<Self, ErrorKind>)
        ensures
            data@.len() >= 80 ==> r is Ok && Self::parse(data@) == Some(
                (r->Ok_0@, data@.skip(80)),
            ),
            data@.len() < 80 ==> r is Err && r->Err_0 == ErrorKind::MalformedInput,
    {
        let mut reader = Reader::new(data);
        proof {
            Self::lemma_parse_needs_80(data@);
        }
        Self::read(&mut reader)
    }

    /// A header is 80 bytes long.
    pub proof fn lemma_wire_len(header: BlockHeaderView)
        requires
            Self::valid(header),
        ensures
            Self::wire(header).len() == 80,
    {
        lemma_u32_round_trip(header.version, Seq::empty());
        lemma_u32_round_trip(header.timestamp, Seq::empty());
        lemma_u32_round_trip(header.bits, Seq::empty());
        lemma_u32_round_trip(header.nonce, Seq::empty());
    }

    /// A header is read from 80 bytes or more, and from no fewer.
    pub proof fn lemma_parse_needs_80(s: Seq<u8>)
        ensures
            s.len() >= 80 <==> Self::parse(s) is Some,
            Self::parse(s) is Some ==> Self::parse(s)->Some_0.1 == s.skip(80),
    {
        if s.len() >= 80 {
            assert(s.skip(4).skip(32).skip(32).skip(4).skip(4).skip(4) =~= s.skip(80));
        }
    }

    /// A header read back from its 80 bytes is the same header.
    pub proof fn lemma_serialize_round_trip(header: BlockHeaderView)
        requires
            Self::valid(header),
        ensures
            Self::wire(header).len() == 80,
            Self::parse(Self::wire(header)) == Some((header, Seq::<u8>::empty())),
    {
        Self::lemma_wire_len(header);
        Self::lemma_round_trip(header, Seq::empty());
        assert(Self::wire(header) + Seq::<u8>::empty() =~= Self::wire(header));
    }
}

impl Wire for BlockHeader {
    open spec fn valid(value: BlockHeaderView) -> bool {
        value.prev_block_hash.len() == 32 && value.merkle_root.len() == 32
    }

    open spec fn wire(value: BlockHeaderView) -> Seq<u8> {
        spec_u32_to_le_bytes(value.version) + value.prev_block_hash + value.merkle_root
            + spec_u32_to_le_bytes(value.timestamp) + spec_u32_to_le_bytes(value.bits)
            + spec_u32_to_le_bytes(value.nonce)
    }

    open spec fn parse(s: Seq<u8>) -> Option<(BlockHeaderView, Seq<u8>)> {
        match parse_u32(s) {
            Some((version, s1)) => match parse_hash(s1) {
                Some((prev_block_hash, s2)) => match parse_hash(s2) {
                    Some((merkle_root, s3)) => match parse_u32(s3) {
                        Some((timestamp, s4)) => match parse_u32(s4) {
                            Some((bits, s5)) => match parse_u32(s5) {
                                Some((nonce, s6)) => Some(
                                    (
                                        BlockHeaderView {
                                            version,
                                            prev_block_hash,
                                            merkle_root,
                                            timestamp,
                                            bits,
                                            nonce,
                                        },
                                        s6,
                                    ),
                                ),
                                None => None,
                            },
                            None => None,
                        },
                        None => None,
                    },
                    None => None,
                },
                None => None,
            },
            None => None,
        }
    }

    proof fn lemma_round_trip(value: BlockHeaderView, tail: Seq<u8>) {
        let t5 = spec_u32_to_le_bytes(value.nonce) + tail;
        let t4 = spec_u32_to_le_bytes(value.bits) + t5;
        let t3 = spec_u32_to_le_bytes(value.timestamp) + t4;
        let t2 = value.merkle_root + t3;
        let t1 = value.prev_block_hash + t2;
        lemma_u32_round_trip(value.version, t1);
        lemma_hash_round_trip(value.prev_block_hash, t2);
        lemma_hash_round_trip(value.merkle_root, t3);
        lemma_u32_round_trip(value.timestamp, t4);
        lemma_u32_round_trip(value.bits, t5);
        lemma_u32_round_trip(value.nonce, tail);
        assert(Self::wire(value) + tail =~= spec_u32_to_le_bytes(value.version) + t1);
    }

    fn write(&self, writer: &mut Vec<u8>) {
        write_u32(writer, self.version);
        append(writer, self.prev_block_hash.as_bytes().as_slice());
        append(writer, self.merkle_root.as_bytes().as_slice());
        write_u32(writer, self.timestamp);
        write_u32(writer, self.bits);
        write_u32(writer, self.nonce);
        assert(writer@ =~= old(writer)@ + Self::wire(self@));
    }

    fn read(reader: &mut Reader) -> (r: Result<Self, ErrorKind>) {
        let mut probe = *reader;
        let version = probe.read_u32()?;
        let prev_block_hash = Hash256::new(probe.read_hash()?);
        let merkle_root = Hash256::new(probe.read_hash()?);
        let timestamp = probe.read_u32()?;
        let bits = probe.read_u32()?;
        let nonce = probe.read_u32()?;
        *reader = probe;
        Ok(BlockHeader { version, prev_block_hash, merkle_root, timestamp, bits, nonce })
    }
}

/// The ids of some transactions, in order.
pub open spec fn txids(transactions: Seq<TransactionView>) -> Seq<Seq<u8>> {
    Seq::new(transactions.len(), |i: int| transactions[i].txid())
}

/// One level of the Merkle tree above `level`: the double hash of each pair
/// of neighbours, the last hash paired with itself where the count is odd.
pub open spec fn merkle_parents(level: Seq<Seq<u8>>) -> Seq<Seq<u8>> {
    Seq::new(
        ((level.len() + 1) / 2) as nat,
        |i: int|
            spec_hash256(
                level[2 * i] + if 2 * i + 1 < level.len() {
                    level[2 * i + 1]
                } else {
                    level[2 * i]
                },
            ),
    )
}

/// The Merkle root of a list of hashes: zero for no hash, the hash itself for
/// one, and else the root of the level above.
pub open spec fn merkle_root(level: Seq<Seq<u8>>) -> Seq<u8>
    decreases level.len(),
{
    if level.len() == 0 {
        Hash256::spec_zero()
    } else if level.len() == 1 {
        level[0]
    } else {
        merkle_root(merkle_parents(level))
    }
}

/// The root of an empty list is the zero hash, and the root of one hash is
/// that hash.
pub proof fn lemma_merkle_root_small(hash: Seq<u8>)
    ensures
        merkle_root(Seq::empty()) == Hash256::spec_zero(),
        merkle_root(seq![hash]) == hash,
{
}

/// A list of odd length, three or more, has the root of the same list with
/// its last hash repeated once.
pub proof fn lemma_merkle_root_odd(level: Seq<Seq<u8>>)
    requires
        level.len() % 2 == 1,
        level.len() >= 3,
    ensures
        merkle_root(level.push(level.last())) == merkle_root(level),
{
    let padded = level.push(level.last());
    assert(merkle_parents(padded) =~= merkle_parents(level));
}

/// The text in the first block's coinbase.
pub open spec fn genesis_message() -> Seq<u8> {
    "The Times 03/Jan/2009 Chancellor on brink of second bailout for banks".spec_bytes()
}

/// The transaction of the first block.
pub open spec fn genesis_coinbase() -> TransactionView {
    TransactionView {
        version: 1,
        inputs: seq![
            TxInputView {
                prev_tx_hash: Hash256::spec_zero(),
                prev_index: COINBASE_INDEX,
                script_sig: genesis_message(),
                sequence: 0xffff_ffff,
            },
        ],
        outputs: seq![TxOutputView { value: 5_000_000_000, script_pubkey: Seq::empty() }],
        lock_time: 0,
    }
}

/// The first block.
pub open spec fn genesis_block() -> BlockView {
    BlockView {
        header: BlockHeaderView {
            version: 1,
            prev_block_hash: Hash256::spec_zero(),
            merkle_root: genesis_coinbase().txid(),
            timestamp: 1_231_006_505,
            bits: 0x20ff_ffff,
            nonce: 2,
        },
        transactions: seq![genesis_coinbase()],
    }
}

/// The reward that a block's coinbase pays: 50 coins of 100 million satoshis.
pub const BLOCK_REWARD: u64 = 5_000_000_000;

/// The text in the coinbase of the block at a height: `Block ` and the
/// height in decimal.
pub open spec fn coinbase_text(height: u32) -> Seq<u8> {
    vstd::utf8::encode_utf8("Block "@ + spec_decimal(height as nat))
}

/// The block that a miner starts from: one coinbase that pays the reward to
/// `reward_script`, on top of `prev_hash`, with nonce zero.
pub open spec fn candidate_block(
    prev_hash: Seq<u8>,
    height: u32,
    reward_script: Seq<u8>,
    timestamp: u32,
    bits: u32,
) -> BlockView {
    let coinbase = TransactionView {
        version: 1,
        inputs: seq![
            TxInputView {
                prev_tx_hash: Hash256::spec_zero(),
                prev_index: COINBASE_INDEX,
                script_sig: coinbase_text(height),
                sequence: 0xffff_ffff,
            },
        ],
        outputs: seq![TxOutputView { value: BLOCK_REWARD, script_pubkey: reward_script }],
        lock_time: 0,
    };
    BlockView {
        header: BlockHeaderView {
            version: 1,
            prev_block_hash: prev_hash,
            merkle_root: coinbase.txid(),
            timestamp,
            bits,
            nonce: 0,
        },
        transactions: seq![coinbase],
    }
}

/// A header and the transactions it commits to.
#[derive(Debug, PartialEq, Eq)]
pub struct Block {
    /// The header.
    pub header: BlockHeader,
    /// The transactions, the coinbase first.
    pub transactions: Vec<Transaction>,
}

/// What a [`Block`] holds.
pub struct BlockView {
    pub header: BlockHeaderView,
    pub transactions: Seq<TransactionView>,
}

impl View for Block {
    type V = BlockView;

    open spec fn view(&self) -> BlockView {
        BlockView { header: self.header@, transactions: views(self.transactions@) }
    }
}

impl Clone for Block {
    fn clone(&self) -> (copy: Self)
        ensures
            copy@ == self@,
    {
        let mut transactions: Vec<Transaction> = Vec::new();
        let mut i: usize = 0;
        while i < self.transactions.len()
            invariant
                i <= self.transactions@.len(),
                views(transactions@) == views(self.transactions@).take(i as int),
            decreases self.transactions@.len() - i,
        {
            let ghost before = views(transactions@);
            let copy = self.transactions[i].clone();
            transactions.push(copy);
            i = i + 1;
            assert(views(transactions@) =~= before.push(copy@));
            assert(views(self.transactions@).take(i as int) =~= before.push(copy@));
        }
        assert(views(transactions@) =~= views(self.transactions@));
        Block { header: self.header.clone(), transactions }
    }
}

impl BlockView {
    /// Whether the block has no predecessor.
    pub open spec fn is_genesis(self) -> bool {
        self.header.prev_block_hash == Hash256::spec_zero()
    }
}

impl Block {
    /// A block of the given header and transactions.
    pub fn new(header: BlockHeader, transactions: Vec<Transaction>) -> (block: Self)
        ensures
            block.header == header,
            block.transactions == transactions,
    {
        Block { header, transactions }
    }

    /// The first block of the chain.
    pub fn genesis() -> (block: Self)
        ensures
            block@ == genesis_block(),
            block@.is_genesis(),
            block@.transactions.len() == 1,
    {
        let text = "The Times 03/Jan/2009 Chancellor on brink of second bailout for banks";
        let mut coinbase_sig: Vec<u8> = Vec::new();
        append(&mut coinbase_sig, text.as_bytes());
        assert(coinbase_sig@ =~= genesis_message());
        let coinbase_output = TxOutput::new(5_000_000_000, Vec::new());
        let coinbase_tx = Transaction::coinbase(coinbase_sig, coinbase_output, 0);
        assert(coinbase_tx@.inputs =~= genesis_coinbase().inputs);
        assert(coinbase_tx@.outputs =~= genesis_coinbase().outputs);
        let mut transactions: Vec<Transaction> = Vec::new();
        transactions.push(coinbase_tx);
        let merkle_root = Self::calculate_merkle_root(transactions.as_slice());
        proof {
            assert(views(transactions@) =~= seq![genesis_coinbase()]);
            assert(txids(views(transactions@)) =~= seq![genesis_coinbase().txid()]);
        }
        let header = BlockHeader::new(1, Hash256::zero(), merkle_root, 1_231_006_505, 0x20ff_ffff, 2);
        Block { header, transactions }
    }

    /// The block that a miner starts from at `height`: one coinbase that
    /// carries the text `Block <height>` and pays the reward to
    /// `reward_script`, on top of `prev_hash`, with nonce zero.
    pub fn candidate(
        prev_hash: Hash256,
        height: u32,
        reward_script: Vec<u8>,
        timestamp: u32,
        bits: u32,
    ) -> (block: Self)
        ensures
            block@ == candidate_block(prev_hash@, height, reward_script@, timestamp, bits),
            block@.transactions.len() == 1,
            block@.transactions[0].is_coinbase(),
    {
        let mut text = String::from_str("Block ");
        let digits = decimal(height as u64);
        text.append(digits.as_str());
        let mut coinbase_script: Vec<u8> = Vec::new();
        append(&mut coinbase_script, text.as_str().as_bytes());
        assert(coinbase_script@ =~= coinbase_text(height));
        let coinbase_output = TxOutput::new(BLOCK_REWARD, reward_script);
        let coinbase_tx = Transaction::coinbase(coinbase_script, coinbase_output, height);
        let mut transactions: Vec<Transaction> = Vec::new();
        transactions.push(coinbase_tx);
        let merkle_root = Self::calculate_merkle_root(transactions.as_slice());
        proof {
            let expected = candidate_block(prev_hash@, height, reward_script@, timestamp, bits);
            assert(coinbase_tx@.inputs =~= expected.transactions[0].inputs);
            assert(coinbase_tx@.outputs =~= expected.transactions[0].outputs);
            assert(views(transactions@) =~= expected.transactions);
            assert(txids(views(transactions@)) =~= seq![coinbase_tx@.txid()]);
        }
        let header = BlockHeader::new(1, prev_hash, merkle_root, timestamp, bits, 0);
        Block { header, transactions }
    }

    /// The Merkle root of the ids of `transactions`.
    pub fn calculate_merkle_root(transactions: &[Transaction]) -> (root: Hash256)
        ensures
            root@ == merkle_root(txids(views(transactions@))),
    {
        let ghost ids = txids(views(transactions@));
        if transactions.len() == 0 {
            return Hash256::zero();
        }
        let mut hashes: Vec<Hash256> = Vec::new();
        let mut i: usize = 0;
        while i < transactions.len()
            invariant
                i <= transactions@.len(),
                ids == txids(views(transactions@)),
                views(hashes@) == ids.take(i as int),
            decreases transactions@.len() - i,
        {
            let ghost before = views(hashes@);
            let id = transactions[i].txid();
            hashes.push(id);
            i = i + 1;
            assert(views(hashes@) =~= before.push(id@));
            assert(ids.take(i as int) =~= before.push(id@));
        }
        assert(ids.take(transactions@.len() as int) =~= ids);
        while hashes.len() > 1
            invariant
                hashes@.len() >= 1,
                merkle_root(views(hashes@)) == merkle_root(ids),
            decreases hashes@.len(),
        {
            let ghost level = views(hashes@);
            let mut next_level: Vec<Hash256> = Vec::new();
            let mut k: usize = 0;
            let count: usize = hashes.len();
            let half: usize = count / 2 + count % 2;
            while k < half
                invariant
                    k <= half,
                    half == (count + 1) / 2,
                    count == hashes@.len(),
                    count >= 2,
                    level == views(hashes@),
                    views(next_level@) == merkle_parents(level).take(k as int),
                decreases half - k,
            {
                let ghost before = views(next_level@);
                let left = &hashes[2 * k];
                let right = if 2 * k + 1 < count {
                    &hashes[2 * k + 1]
                } else {
                    &hashes[2 * k]
                };
                let mut combined: Vec<u8> = Vec::new();
                append(&mut combined, left.as_bytes().as_slice());
                append(&mut combined, right.as_bytes().as_slice());
                let parent = hash256(combined.as_slice());
                assert(combined@ =~= left@ + right@);
                next_level.push(parent);
                k = k + 1;
                assert(views(next_level@) =~= before.push(parent@));
                assert(merkle_parents(level).take(k as int) =~= before.push(parent@));
            }
            assert(merkle_parents(level).take(half as int) =~= merkle_parents(level));
            hashes = next_level;
        }
        hashes[0]
    }

    /// The hash of the block: the hash of its header.
    pub fn hash(&self) -> (h: Hash256)
        ensures
            h@ == self@.header.hash(),
    {
        self.header.hash()
    }

    /// The height of the block. A block does not record its height, so this
    /// is zero; the chain's height index knows it.
    pub fn height(&self) -> (height: u32)
        ensures
            height == 0,
    {
        0
    }

    /// Whether the block is a first block: its previous hash is all zeros.
    pub fn is_genesis(&self) -> (r: bool)
        ensures
            r == self@.is_genesis(),
    {
        self.header.prev_block_hash.is_zero()
    }

    /// A block read back from its wire form is the same block.
    pub proof fn lemma_serialize_round_trip(block: BlockView)
        requires
            Self::valid(block),
        ensures
            Self::spec_deserialize(Self::spec_serialize(block)) == Some(block),
    {
        Self::lemma_round_trip(block, Seq::empty());
        assert(Self::wire(block) + Seq::<u8>::empty() =~= Self::wire(block));
    }
}

impl Wire for Block {
    open spec fn valid(value: BlockView) -> bool {
        &&& BlockHeader::valid(value.header)
        &&& value.transactions.len() <= u64::MAX
        &&& all_valid::<Transaction>(value.transactions)
    }

    open spec fn wire(value: BlockView) -> Seq<u8> {
        BlockHeader::wire(value.header) + wire_counted::<Transaction>(value.transactions)
    }

    open spec fn parse(s: Seq<u8>) -> Option<(BlockView, Seq<u8>)> {
        match BlockHeader::parse(s) {
            Some((header, s1)) => match parse_counted::<Transaction>(s1) {
                Some((transactions, s2)) => Some((BlockView { header, transactions }, s2)),
                None => None,
            },
            None => None,
        }
    }

    proof fn lemma_round_trip(value: BlockView, tail: Seq<u8>) {
        let t1 = wire_counted::<Transaction>(value.transactions) + tail;
        BlockHeader::lemma_round_trip(value.header, t1);
        lemma_counted_round_trip::<Transaction>(value.transactions, tail);
        assert(Self::wire(value) + tail =~= BlockHeader::wire(value.header) + t1);
    }

    fn write(&self, writer: &mut Vec<u8>) {
        let _count: usize = self.transactions.len();
        self.header.write(writer);
        write_counted(writer, &self.transactions);
        assert(writer@ =~= old(writer)@ + Self::wire(self@));
    }

    fn read(reader: &mut Reader) -> (r: Result<Self, ErrorKind>) {
        let mut probe = *reader;
        let header = BlockHeader::read(&mut probe)?;
        let transactions = read_counted::<Transaction>(&mut probe)?;
        *reader = probe;
        Ok(Block { header, transactions })
    }
}

impl Serializable for Block {
    open spec fn spec_serialize(value: BlockView) -> Seq<u8> {
        Self::wire(value)
    }

    open spec fn spec_deserialize(data: Seq<u8>) -> Option<BlockView> {
        match Self::parse(data) {
            Some((value, rest)) => Some(value),
            None => None,
        }
    }

    fn serialize(&self) -> (out: Vec<u8>)
        ensures
            Self::valid(self@),
    {
        let mut out: Vec<u8> = Vec::new();
        self.write(&mut out);
        assert(Seq::<u8>::empty() + Self::wire(self@) =~= Self::wire(self@));
        out
    }

    fn deserialize(data: &[u8]) -> (r: Result<Self, ErrorKind>) {
        let mut reader = Reader::new(data);
        Self::read(&mut reader)
    }
}

} // verus!
