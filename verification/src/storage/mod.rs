//! Storage: the block store with its height index and tip, and the set of
//! unspent outputs, each in a key-value database of its own.

pub mod blockchain_db;
pub mod kv;
pub mod manager;
pub mod utxo_set;

pub use blockchain_db::BlockchainDB;
pub use manager::Storage;
pub use utxo_set::{OutPoint, Utxo, UtxoSet};
