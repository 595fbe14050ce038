//! An educational Bitcoin node core: the byte-exact data model, proof of work,
//! block and transaction validation, key-value storage and a P2PKH wallet.
//!
//! Every function states what it returns in terms of the byte sequences and
//! numbers it works on, and is verified against that statement. What the
//! hash functions, the curve arithmetic and the key-value engine compute is
//! named, not restated; the wrappers that tie each outside call to its name
//! say so.

pub mod chain;
pub mod consensus;
pub mod error;
pub mod network;
pub mod primitives;
pub mod storage;
pub mod wallet;

pub use chain::{Block, BlockHeader, Script, Transaction, TxInput, TxOutput};
pub use consensus::{
    BlockValidator, GpuMiner, Miner, MiningResult, Target, TransactionValidator, ValidationError,
};
pub use error::ErrorKind;
pub use network::{InvMessage, InvType, Message, MessageType, VersionMessage};
pub use primitives::{hash160, hash256, sha256_hash, Hash256, Serializable};
pub use storage::{BlockchainDB, OutPoint, Storage, Utxo, UtxoSet};
pub use wallet::{Address, KeyPair, KeyRecord, Keystore, TransactionBuilder};
