//! The structural validation of headers, blocks and transactions.
//!
//! A validator stops at the first rule that is broken and reports it.

use crate::chain::block::{
    candidate_block, genesis_block, genesis_coinbase, merkle_root, txids, Block, BlockHeader,
    BlockHeaderView, BlockView,
};
use crate::chain::script::{spec_verify_p2pkh, Script};
use crate::chain::transaction::{Transaction, TransactionView, TxInput, TxInputView};
use crate::consensus::clock::unix_time;
use crate::consensus::pow::{meets_target, nonce_wins, Miner};
use crate::primitives::serialize::views;
use crate::primitives::types::Hash256;
use vstd::prelude::*;

verus! {

/// How far ahead of the clock a header's timestamp may lie, in seconds.
pub const MAX_FUTURE_SECONDS: u64 = 7200;

/// The largest total that the outputs of a relayed transaction may carry:
/// 21 million coins of 100 million satoshis.
pub const MAX_MONEY: u64 = 2_100_000_000_000_000;

/// The rule that a header, block or transaction breaks.
#[derive(Debug, Clone, Copy, PartialEq, Eq, Structural)]
pub enum ValidationError {
    /// The block hash does not meet the target.
    InvalidProofOfWork,
    /// The Merkle root of the transactions is not the one in the header.
    InvalidMerkleRoot,
    /// The block holds no transaction.
    NoTransactions,
    /// The first transaction is not a coinbase.
    MissingCoinbase,
    /// More than one transaction is a coinbase. The block validator reports
    /// this condition as `CoinbaseNotFirst`.
    MultipleCoinbase,
    /// The transaction has no input or no output.
    EmptyTransaction,
    /// The unlocking script of an input does not verify.
    InvalidSignature,
    /// A transaction that is not the first is a coinbase.
    CoinbaseNotFirst,
    /// The timestamp lies too far in the future.
    InvalidTimestamp,
    /// The version is below 1.
    InvalidVersion,
    /// A coinbase has more than one input. No transaction is both, so the
    /// validators never report it.
    InvalidCoinbaseInputCount,
    /// The outputs carry more than the money supply.
    OutputValueExceedsMax,
}

impl ValidationError {
    /// The text of the error.
    pub open spec fn spec_message(self) -> Seq<char> {
        match self {
            ValidationError::InvalidProofOfWork => "Invalid proof of work"@,
            ValidationError::InvalidMerkleRoot => "Invalid merkle root"@,
            ValidationError::NoTransactions => "Block has no transactions"@,
            ValidationError::MissingCoinbase => "Missing coinbase transaction"@,
            ValidationError::MultipleCoinbase => "Multiple coinbase transactions"@,
            ValidationError::EmptyTransaction => "Empty transaction"@,
            ValidationError::InvalidSignature => "Invalid signature"@,
            ValidationError::CoinbaseNotFirst => "Coinbase not in first position"@,
            ValidationError::InvalidTimestamp => "Invalid timestamp"@,
            ValidationError::InvalidVersion => "Invalid version"@,
            ValidationError::InvalidCoinbaseInputCount => "Coinbase must have exactly one input"@,
            ValidationError::OutputValueExceedsMax => "Total output value exceeds maximum supply"@,
        }
    }

    /// The text of the error, for display.
    pub fn message(&self) -> (text: String)
        ensures
            text@ == self.spec_message(),
    {
        let text: &str = match self {
            ValidationError::InvalidProofOfWork => "Invalid proof of work",
            ValidationError::InvalidMerkleRoot => "Invalid merkle root",
            ValidationError::NoTransactions => "Block has no transactions",
            ValidationError::MissingCoinbase => "Missing coinbase transaction",
            ValidationError::MultipleCoinbase => "Multiple coinbase transactions",
            ValidationError::EmptyTransaction => "Empty transaction",
            ValidationError::InvalidSignature => "Invalid signature",
            ValidationError::CoinbaseNotFirst => "Coinbase not in first position",
            ValidationError::InvalidTimestamp => "Invalid timestamp",
            ValidationError::InvalidVersion => "Invalid version",
            ValidationError::InvalidCoinbaseInputCount => "Coinbase must have exactly one input",
            ValidationError::OutputValueExceedsMax => "Total output value exceeds maximum supply",
        };
        text.to_owned()
    }
}

/// The verdict on a header at a given time: a header with a predecessor must
/// meet the target; the version must be at least 1; the timestamp may lie at
/// most two hours after `now`.
pub open spec fn spec_validate_header(header: BlockHeaderView, bits: u32, now: u64) -> Result<
    (),
    ValidationError,
> {
    if header.prev_block_hash != Hash256::spec_zero() && !meets_target(header.hash(), bits) {
        Err(ValidationError::InvalidProofOfWork)
    } else if header.version < 1 {
        Err(ValidationError::InvalidVersion)
    } else if header.timestamp > now + MAX_FUTURE_SECONDS {
        Err(ValidationError::InvalidTimestamp)
    } else {
        Ok(())
    }
}

/// The verdict on the structure of a transaction: it needs an input and an
/// output.
pub open spec fn spec_validate_transaction(tx: TransactionView) -> Result<(), ValidationError> {
    if tx.inputs.len() == 0 || tx.outputs.len() == 0 {
        Err(ValidationError::EmptyTransaction)
    } else {
        Ok(())
    }
}

/// The verdict on a block at a given time: the header's verdict; then at
/// least one transaction; the first a coinbase and no other; the Merkle root
/// of the header; and every transaction well formed.
pub open spec fn spec_validate_block(block: BlockView, bits: u32, now: u64) -> Result<
    (),
    ValidationError,
> {
    let txs = block.transactions;
    if spec_validate_header(block.header, bits, now) is Err {
        spec_validate_header(block.header, bits, now)
    } else if txs.len() == 0 {
        Err(ValidationError::NoTransactions)
    } else if !txs[0].is_coinbase() {
        Err(ValidationError::MissingCoinbase)
    } else if exists|i: int| 1 <= i < txs.len() && (#[trigger] txs[i]).is_coinbase() {
        Err(ValidationError::CoinbaseNotFirst)
    } else if merkle_root(txids(txs)) != block.header.merkle_root {
        Err(ValidationError::InvalidMerkleRoot)
    } else if exists|i: int| 0 <= i < txs.len() && spec_validate_transaction(#[trigger] txs[i]) is Err {
        Err(ValidationError::EmptyTransaction)
    } else {
        Ok(())
    }
}

/// The transaction with every unlocking script emptied: what a signer signs.
pub open spec fn spec_unsigned(tx: TransactionView) -> TransactionView {
    TransactionView {
        inputs: Seq::new(
            tx.inputs.len(),
            |i: int| TxInputView { script_sig: Seq::empty(), ..tx.inputs[i] },
        ),
        ..tx
    }
}

/// The digest that the signatures of a transaction commit to: the id of the
/// transaction with every unlocking script emptied.
pub open spec fn spec_signing_digest(tx: TransactionView) -> Seq<u8> {
    spec_unsigned(tx).txid()
}

/// The verdict on the unlocking script of one input against the locking
/// script of the output it spends.
pub open spec fn spec_validate_signature(
    tx: TransactionView,
    input_index: int,
    script_pubkey: Seq<u8>,
) -> Result<(), ValidationError> {
    if input_index >= tx.inputs.len() {
        Err(ValidationError::EmptyTransaction)
    } else if tx.inputs[input_index].is_coinbase() {
        Ok(())
    } else if spec_verify_p2pkh(
        tx.inputs[input_index].script_sig,
        script_pubkey,
        spec_signing_digest(tx),
    ) == Ok::<bool, crate::error::ErrorKind>(true) {
        Ok(())
    } else {
        Err(ValidationError::InvalidSignature)
    }
}

/// The verdict on a transaction offered for relay: it needs an input and an
/// output, must not be a coinbase, and its outputs may not carry more than
/// the money supply.
pub open spec fn spec_validate_for_mempool(tx: TransactionView) -> Result<(), ValidationError> {
    if tx.inputs.len() == 0 || tx.outputs.len() == 0 {
        Err(ValidationError::EmptyTransaction)
    } else if tx.is_coinbase() {
        Err(ValidationError::CoinbaseNotFirst)
    } else if tx.total_output() > MAX_MONEY {
        Err(ValidationError::OutputValueExceedsMax)
    } else {
        Ok(())
    }
}

/// The first block is valid against any target, at any time from two hours
/// before its timestamp on.
pub proof fn lemma_genesis_is_valid(bits: u32, now: u64)
    requires
        now + MAX_FUTURE_SECONDS >= 1_231_006_505,
    ensures
        spec_validate_block(genesis_block(), bits, now) == Ok::<(), ValidationError>(()),
{
    let block = genesis_block();
    assert(txids(block.transactions) =~= seq![genesis_coinbase().txid()]);
    assert(block.transactions[0].is_coinbase());
}

/// A candidate block with a nonce that wins is valid against the target it
/// was mined for, at any time from two hours before its timestamp on.
pub proof fn lemma_mined_candidate_is_valid(
    prev_hash: Seq<u8>,
    height: u32,
    reward_script: Seq<u8>,
    timestamp: u32,
    bits: u32,
    nonce: u32,
    now: u64,
)
    requires
        nonce_wins(
            candidate_block(prev_hash, height, reward_script, timestamp, bits).header,
            nonce,
            bits,
        ),
        now + MAX_FUTURE_SECONDS >= timestamp,
    ensures
        ({
            let candidate = candidate_block(prev_hash, height, reward_script, timestamp, bits);
            let mined = BlockView {
                header: candidate.header.with_nonce(nonce),
                transactions: candidate.transactions,
            };
            spec_validate_block(mined, bits, now) == Ok::<(), ValidationError>(())
        }),
{
    let candidate = candidate_block(prev_hash, height, reward_script, timestamp, bits);
    assert(txids(candidate.transactions) =~= seq![candidate.transactions[0].txid()]);
    assert(candidate.transactions[0].is_coinbase());
}

/// The transaction with every unlocking script emptied.
pub fn unsigned_copy(tx: &Transaction) -> (copy: Transaction)
    ensures
        copy@ == spec_unsigned(tx@),
{
    let mut inputs: Vec<TxInput> = Vec::new();
    let mut i: usize = 0;
    while i < tx.inputs.len()
        invariant
            i <= tx.inputs@.len(),
            views(inputs@) == spec_unsigned(tx@).inputs.take(i as int),
        decreases tx.inputs@.len() - i,
    {
        let ghost before = views(inputs@);
        let input = &tx.inputs[i];
        let stripped = TxInput {
            prev_tx_hash: input.prev_tx_hash,
            prev_index: input.prev_index,
            script_sig: Vec::new(),
            sequence: input.sequence,
        };
        inputs.push(stripped);
        i = i + 1;
        assert(views(inputs@) =~= before.push(stripped@));
        assert(spec_unsigned(tx@).inputs.take(i as int) =~= before.push(stripped@));
    }
    assert(views(inputs@) =~= spec_unsigned(tx@).inputs);
    let full = tx.clone();
    Transaction { version: tx.version, inputs, outputs: full.outputs, lock_time: tx.lock_time }
}

/// The digest that the signatures of a transaction commit to.
pub fn signing_digest(tx: &Transaction) -> (digest: Hash256)
    ensures
        digest@ == spec_signing_digest(tx@),
{
    unsigned_copy(tx).txid()
}

/// A validator of blocks against a fixed target.
pub struct BlockValidator {
    miner: Miner,
}

impl BlockValidator {
    /// The compact target that blocks are held to.
    pub closed spec fn spec_bits(&self) -> u32 {
        self.miner.spec_bits()
    }

    /// A validator for the target that `bits` encodes.
    pub fn new(bits: u32) -> (validator: Self)
        ensures
            validator.spec_bits() == bits,
    {
        BlockValidator { miner: Miner::new(bits) }
    }

    /// Validates a header against the clock of the machine.
    pub fn validate_header(&self, header: &BlockHeader) -> (r: Result<(), ValidationError>)
        ensures
            exists|now: u64| r == spec_validate_header(header@, self.spec_bits(), now),
    {
        let now = unix_time();
        self.validate_header_at(header, now)
    }

    /// Validates a header as of `now`, in seconds since the Unix epoch.
    pub fn validate_header_at(&self, header: &BlockHeader, now: u64) -> (r: Result<
        (),
        ValidationError,
    >)
        ensures
            r == spec_validate_header(header@, self.spec_bits(), now),
    {
        if !header.prev_block_hash.is_zero() {
            if !self.miner.verify(header) {
                return Err(ValidationError::InvalidProofOfWork);
            }
        }
        if header.version < 1 {
            return Err(ValidationError::InvalidVersion);
        }
        if now <= u64::MAX - MAX_FUTURE_SECONDS && header.timestamp as u64 > now
            + MAX_FUTURE_SECONDS {
            return Err(ValidationError::InvalidTimestamp);
        }
        Ok(())
    }

    /// Validates a block against the clock of the machine.
    pub fn validate_block(&self, block: &Block) -> (r: Result<(), ValidationError>)
        ensures
            exists|now: u64| r == spec_validate_block(block@, self.spec_bits(), now),
    {
        let now = unix_time();
        self.validate_block_at(block, now)
    }

    /// Validates a block as of `now`, in seconds since the Unix epoch.
    #[verifier::loop_isolation(false)]
    pub fn validate_block_at(&self, block: &Block, now: u64) -> (r: Result<(), ValidationError>)
        ensures
            r == spec_validate_block(block@, self.spec_bits(), now),
    {
        let ghost txs = block@.transactions;
        self.validate_header_at(&block.header, now)?;
        if block.transactions.len() == 0 {
            return Err(ValidationError::NoTransactions);
        }
        if !block.transactions[0].is_coinbase() {
            return Err(ValidationError::MissingCoinbase);
        }
        let mut i: usize = 1;
        while i < block.transactions.len()
            invariant
                1 <= i <= block.transactions@.len(),
                txs == views(block.transactions@),
                forall|j: int| 1 <= j < i ==> !(#[trigger] txs[j]).is_coinbase(),
            decreases block.transactions@.len() - i,
        {
            if block.transactions[i].is_coinbase() {
                assert(txs[i as int].is_coinbase());
                return Err(ValidationError::CoinbaseNotFirst);
            }
            i = i + 1;
        }
        let calculated_merkle = Block::calculate_merkle_root(block.transactions.as_slice());
        if calculated_merkle != block.header.merkle_root {
            return Err(ValidationError::InvalidMerkleRoot);
        }
        let mut k: usize = 0;
        while k < block.transactions.len()
            invariant
                k <= block.transactions@.len(),
                txs == views(block.transactions@),
                forall|j: int| 0 <= j < k ==> spec_validate_transaction(#[trigger] txs[j]) is Ok,
            decreases block.transactions@.len() - k,
        {
            match self.validate_transaction(&block.transactions[k]) {
                Ok(()) => {},
                Err(e) => {
                    assert(spec_validate_transaction(txs[k as int]) is Err);
                    return Err(e);
                },
            }
            k = k + 1;
        }
        Ok(())
    }

    /// Validates the structure of a transaction: it needs an input and an
    /// output. A coinbase has one input by what a coinbase is, so its input
    /// count needs no check of its own.
    pub fn validate_transaction(&self, tx: &Transaction) -> (r: Result<(), ValidationError>)
        ensures
            r == spec_validate_transaction(tx@),
    {
        if tx.inputs.len() == 0 || tx.outputs.len() == 0 {
            return Err(ValidationError::EmptyTransaction);
        }
        Ok(())
    }

    /// Verifies the unlocking script of input `input_index` against the
    /// locking script of the output it spends. The digest is the id of the
    /// transaction with every unlocking script emptied. A coinbase input
    /// passes unchecked.
    pub fn validate_transaction_signature(
        &self,
        tx: &Transaction,
        input_index: usize,
        script_pubkey: &[u8],
    ) -> (r: Result<(), ValidationError>)
        ensures
            r == spec_validate_signature(tx@, input_index as int, script_pubkey@),
    {
        if input_index >= tx.inputs.len() {
            return Err(ValidationError::EmptyTransaction);
        }
        let input = &tx.inputs[input_index];
        if input.is_coinbase() {
            return Ok(());
        }
        let tx_hash = signing_digest(tx);
        match Script::verify_p2pkh(input.script_sig.as_slice(), script_pubkey, tx_hash.as_bytes()) {
            Ok(true) => Ok(()),
            _ => Err(ValidationError::InvalidSignature),
        }
    }
}

/// The validator of transactions offered for relay.
pub struct TransactionValidator;

impl TransactionValidator {
    /// Validates a transaction for the memory pool.
    pub fn validate_for_mempool(tx: &Transaction) -> (r: Result<(), ValidationError>)
        ensures
            r == spec_validate_for_mempool(tx@),
    {
        if tx.inputs.len() == 0 || tx.outputs.len() == 0 {
            return Err(ValidationError::EmptyTransaction);
        }
        if tx.is_coinbase() {
            return Err(ValidationError::CoinbaseNotFirst);
        }
        let total_output = tx.total_output_value();
        if total_output > MAX_MONEY {
            return Err(ValidationError::OutputValueExceedsMax);
        }
        Ok(())
    }
}

} // verus!
